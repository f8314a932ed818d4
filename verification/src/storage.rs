//! Node state and where it is kept: the storage trait, the in-memory
//! store, and the file store's paths and key check.

use vstd::prelude::*;

verus! {

/// Length of a node's root key in bytes.
pub const ROOT_KEY_LEN: usize = 32;

/// A node's root key, from which its other keys are derived.
#[derive(Clone, Copy, Debug, PartialEq, Eq)]
pub struct RootKey {
    bytes: [u8; 32],
}

impl RootKey {
    /// The key made of these bytes.
    pub fn from_bytes(bytes: [u8; 32]) -> (r: Self)
        ensures
            r.bytes() == bytes@,
    {
        RootKey { bytes }
    }

    pub closed spec fn bytes(&self) -> Seq<u8> {
        self.bytes@
    }

    /// The bytes of the key.
    pub fn as_bytes(&self) -> (r: &[u8; 32])
        ensures
            r@ == self.bytes(),
    {
        &self.bytes
    }
}

/// What the hub assigned to this node when it registered.
#[derive(Debug)]
pub struct NodeRegistration {
    /// The connectivity group the node belongs to.
    pub connectivity_group_id: String,
    /// The node's number within its group.
    pub node_number: i32,
}

impl Clone for NodeRegistration {
    fn clone(&self) -> (r: Self)
        ensures
            r == *self,
    {
        NodeRegistration {
            connectivity_group_id: self.connectivity_group_id.clone(),
            node_number: self.node_number,
        }
    }
}

/// Everything a node keeps between runs.
#[derive(Debug)]
pub struct NodeState {
    pub root_key: RootKey,
    /// Present once the node has registered.
    pub registration: Option<NodeRegistration>,
}

/// The state as it is persisted.
pub type PersistedNodeState = NodeState;

impl Clone for NodeState {
    fn clone(&self) -> (r: Self)
        ensures
            r == *self,
    {
        NodeState {
            root_key: self.root_key,
            registration: match &self.registration {
                Some(reg) => Some(reg.clone()),
                None => None,
            },
        }
    }
}

/// Storage backend for node state.
///
/// Implementations are responsible for their own namespacing/isolation; each
/// store instance holds exactly one node's state.
pub trait NodeStateStore: Send + Sync + 'static {
    type Error;

    /// The stored state, or `None` when nothing is stored.
    fn load(&self) -> Result<Option<NodeState>, Self::Error>;

    /// Stores `state`, replacing what was stored.
    fn save(&mut self, state: &NodeState) -> Result<(), Self::Error>;

    /// Removes the stored state.
    fn delete(&mut self) -> Result<(), Self::Error>;
}

/// Errors of the in-memory store. It holds its state in a plain field, so
/// none of its operations fails; the variant is kept for callers that match
/// on it.
#[derive(Debug)]
pub enum InMemoryStoreError {
    /// The state could not be reached.
    Poisoned,
}

impl InMemoryStoreError {
    /// A description of the error.
    pub fn message(&self) -> (r: &'static str)
        ensures
            r@ == "in-memory state lock was poisoned"@,
    {
        "in-memory state lock was poisoned"
    }
}

/// Simple, non-persistent store useful for testing and sketches.
#[derive(Debug)]
pub struct InMemoryNodeStateStore {
    state: Option<NodeState>,
}

impl View for InMemoryNodeStateStore {
    type V = Option<NodeState>;

    closed spec fn view(&self) -> Option<NodeState> {
        self.state
    }
}

impl InMemoryNodeStateStore {
    /// An empty store.
    pub fn new() -> (r: Self)
        ensures
            r@ == None::<NodeState>,
    {
        InMemoryNodeStateStore { state: None }
    }
}

/// What the in-memory store holds after saving `state` over `stored`: the
/// saved state, whatever was there before.
pub open spec fn after_save(stored: Option<NodeState>, state: NodeState) -> Option<NodeState> {
    Some(state)
}

/// What the in-memory store holds after a delete: nothing.
pub open spec fn after_delete(stored: Option<NodeState>) -> Option<NodeState> {
    None
}

/// What loading from an in-memory store that holds `stored` gives.
pub open spec fn loaded(stored: Option<NodeState>) -> Result<Option<NodeState>, InMemoryStoreError> {
    Ok(stored)
}

impl NodeStateStore for InMemoryNodeStateStore {
    type Error = InMemoryStoreError;

    fn load(&self) -> (r: Result<Option<NodeState>, InMemoryStoreError>)
        ensures
            r == loaded(self@),
    {
        match &self.state {
            Some(s) => Ok(Some(s.clone())),
            None => Ok(None),
        }
    }

    fn save(&mut self, state: &NodeState) -> (r: Result<(), InMemoryStoreError>)
        ensures
            r is Ok,
            final(self)@ == after_save(old(self)@, *state),
    {
        self.state = Some(state.clone());
        Ok(())
    }

    fn delete(&mut self) -> (r: Result<(), InMemoryStoreError>)
        ensures
            r is Ok,
            final(self)@ == after_delete(old(self)@),
    {
        self.state = None;
        Ok(())
    }
}

/// The in-memory store keeps exactly one node's state: a load gives back
/// what the last save stored, a load after a delete finds nothing, and a
/// second save replaces the first.
pub proof fn law_in_memory_round_trip(stored: Option<NodeState>, first: NodeState, second: NodeState)
    ensures
        loaded(after_save(stored, first)) == Ok::<Option<NodeState>, InMemoryStoreError>(Some(first)),
        loaded(after_delete(stored)) == Ok::<Option<NodeState>, InMemoryStoreError>(None),
        after_save(after_save(stored, first), second) == after_save(stored, second),
        loaded(after_delete(after_save(stored, first))) == Ok::<Option<NodeState>, InMemoryStoreError>(None),
{
}

/// `name` joined under the directory `dir` as Unix paths join: with a `/`
/// between them unless `dir` is empty or already ends with one.
pub open spec fn join_path(dir: Seq<char>, name: Seq<char>) -> Seq<char> {
    if dir.len() == 0 {
        name
    } else if dir.last() == '/' {
        dir + name
    } else {
        dir + seq!['/'] + name
    }
}

/// File-based node state store.
///
/// Stores state in a directory:
/// ```text
/// dir/
///   root_key.bin
///   registration.json
/// ```
///
/// The caller is responsible for constructing the path with any desired
/// namespacing (e.g., `base_dir/app/profile`). Reading and writing the files
/// is the caller's part; this type gives the paths and checks the key.
#[derive(Debug)]
pub struct FileNodeStateStore {
    dir: String,
}

impl FileNodeStateStore {
    pub closed spec fn spec_dir(&self) -> Seq<char> {
        self.dir@
    }

    /// Creates a store over the given directory, which should already
    /// include any namespacing (app, profile, etc.).
    pub fn new(dir: String) -> (r: Self)
        ensures
            r.spec_dir() == dir@,
    {
        FileNodeStateStore { dir }
    }

    /// The directory that holds the state.
    pub fn dir(&self) -> (r: &str)
        ensures
            r@ == self.spec_dir(),
    {
        self.dir.as_str()
    }

    fn join(&self, name: &str) -> (r: String)
        ensures
            r@ == join_path(self.spec_dir(), name@),
    {
        let d = crate::text::chars_of(self.dir.as_str());
        let mut out = String::from_str(self.dir.as_str());
        if d.len() > 0 && d[d.len() - 1] != '/' {
            crate::text::push_char(&mut out, '/');
        }
        out.append(name);
        assert(out@ =~= join_path(self.spec_dir(), name@));
        out
    }

    /// The path of the root key file, `root_key.bin` in the directory.
    pub fn root_key_path(&self) -> (r: String)
        ensures
            r@ == join_path(self.spec_dir(), "root_key.bin"@),
    {
        self.join("root_key.bin")
    }

    /// The path of the registration file, `registration.json` in the directory.
    pub fn registration_path(&self) -> (r: String)
        ensures
            r@ == join_path(self.spec_dir(), "registration.json"@),
    {
        self.join("registration.json")
    }
}

/// The root key held in the bytes of a root key file, or `None` when the
/// file does not have exactly [`ROOT_KEY_LEN`] bytes.
pub fn root_key_from_bytes(bytes: &[u8]) -> (r: Option<RootKey>)
    ensures
        bytes@.len() == ROOT_KEY_LEN <==> r is Some,
        r matches Some(k) ==> k.bytes() == bytes@,
{
    if bytes.len() != ROOT_KEY_LEN {
        return None;
    }
    let mut key = [0u8; 32];
    let mut i: usize = 0;
    while i < 32
        invariant
            bytes@.len() == 32,
            i <= 32,
            forall|j: int| 0 <= j < i ==> key@[j] == bytes@[j],
        decreases 32 - i,
    {
        key[i] = bytes[i];
        i = i + 1;
    }
    assert(key@ =~= bytes@);
    Some(RootKey::from_bytes(key))
}

/// What a root key file holds: no file means no stored state (`Some(None)`),
/// a file of exactly [`ROOT_KEY_LEN`] bytes holds that key, and any other
/// file is invalid (`None`).
pub fn root_key_file(contents: Option<&[u8]>) -> (r: Option<Option<RootKey>>)
    ensures
        match contents {
            None => r == Some(None::<RootKey>),
            Some(bytes) => if bytes@.len() == ROOT_KEY_LEN {
                r matches Some(Some(k)) && k.bytes() == bytes@
            } else {
                r is None
            },
        },
{
    match contents {
        None => Some(None),
        Some(bytes) => match root_key_from_bytes(bytes) {
            Some(k) => Some(Some(k)),
            None => None,
        },
    }
}

/// What to do with the registration file when a state is saved.
#[derive(Debug, Clone, Copy, PartialEq, Eq, Structural)]
pub enum RegistrationFileAction {
    /// Write the state's registration.
    Write,
    /// Remove the file left from an earlier registration.
    Remove,
    /// Nothing to write and nothing to remove.
    Keep,
}

/// The registration file follows the saved state: written when the state
/// has a registration, removed when it has none but a file is left, and
/// otherwise left alone.
pub fn registration_file_action(has_registration: bool, file_exists: bool) -> (r:
    RegistrationFileAction)
    ensures
        r == (if has_registration {
            RegistrationFileAction::Write
        } else if file_exists {
            RegistrationFileAction::Remove
        } else {
            RegistrationFileAction::Keep
        }),
{
    if has_registration {
        RegistrationFileAction::Write
    } else if file_exists {
        RegistrationFileAction::Remove
    } else {
        RegistrationFileAction::Keep
    }
}

/// The state a load gives, from what the root key step and the
/// registration step answered: no key means no state, and the registration
/// counts only once a key is found.
pub open spec fn spec_loaded<E>(
    root: Result<Option<RootKey>, E>,
    registration: Result<Option<NodeRegistration>, E>,
) -> Result<Option<NodeState>, E> {
    match root {
        Err(e) => Err(e),
        Ok(None) => Ok(None),
        Ok(Some(key)) => match registration {
            Err(e) => Err(e),
            Ok(reg) => Ok(Some(NodeState { root_key: key, registration: reg })),
        },
    }
}

/// Whether `r` is what a load gives when the root key step answered `root`
/// and, where a key was found, the registration step answered
/// `registration`.
pub open spec fn load_answers<E, F, G>(
    load_root_key: F,
    load_registration: G,
    root: Result<Option<RootKey>, E>,
    registration: Result<Option<NodeRegistration>, E>,
    r: Result<Option<NodeState>, E>,
) -> bool where
    F: FnOnce() -> Result<Option<RootKey>, E>,
    G: FnOnce() -> Result<Option<NodeRegistration>, E>,
 {
    &&& call_ensures(load_root_key, (), root)
    &&& (root matches Ok(Some(_)) ==> call_ensures(load_registration, (), registration))
    &&& r == spec_loaded(root, registration)
}

/// Loads a node's state in two steps: the root key first, and the
/// registration only once a key is found. A failing step ends the load
/// with its error.
pub fn load_in_order<E, F, G>(load_root_key: F, load_registration: G) -> (r: Result<
    Option<NodeState>,
    E,
>) where
    F: FnOnce() -> Result<Option<RootKey>, E>,
    G: FnOnce() -> Result<Option<NodeRegistration>, E>,

    requires
        call_requires(load_root_key, ()),
        call_requires(load_registration, ()),
    ensures
        exists|root: Result<Option<RootKey>, E>, registration: Result<Option<NodeRegistration>, E>|
            #[trigger] load_answers(load_root_key, load_registration, root, registration, r),
{
    let root = load_root_key();
    match root {
        Err(e) => {
            let r = Err(e);
            proof {
                assert(load_answers(load_root_key, load_registration, root, unasked_registration(), r));
            }
            r
        },
        Ok(None) => {
            let r = Ok(None);
            proof {
                assert(load_answers(load_root_key, load_registration, root, unasked_registration(), r));
            }
            r
        },
        Ok(Some(key)) => {
            let registration = load_registration();
            let ghost answered = registration;
            let r = match registration {
                Err(e) => Err(e),
                Ok(reg) => Ok(Some(NodeState { root_key: key, registration: reg })),
            };
            proof {
                assert(load_answers(load_root_key, load_registration, root, answered, r));
            }
            r
        },
    }
}

/// A load that finds a root key always reports a stored state (or the
/// registration step's error): the state holds that key and whatever the
/// registration step gave, `None` for a node that has not registered. A
/// load that finds no key reports no state, and a failing key step ends
/// the load with its error.
pub proof fn law_load_keeps_found_key<E, F, G>(
    load_root_key: F,
    load_registration: G,
    root: Result<Option<RootKey>, E>,
    registration: Result<Option<NodeRegistration>, E>,
    r: Result<Option<NodeState>, E>,
) where
    F: FnOnce() -> Result<Option<RootKey>, E>,
    G: FnOnce() -> Result<Option<NodeRegistration>, E>,

    requires
        load_answers(load_root_key, load_registration, root, registration, r),
    ensures
        root matches Ok(Some(k)) ==> match registration {
            Ok(reg) => r matches Ok(Some(s)) && s.root_key == k && s.registration == reg,
            Err(e) => r == Err::<Option<NodeState>, E>(e),
        },
        root matches Ok(None) ==> r matches Ok(None),
        root matches Err(e) ==> r == Err::<Option<NodeState>, E>(e),
{
}

/// Some registration answer, for a load that never asks for one.
spec fn unasked_registration<E>() -> Result<Option<NodeRegistration>, E> {
    Ok(None)
}

/// Whether `r` is what two writes in order give when the first answered
/// `first` and, where it succeeded, the second answered `second`.
pub open spec fn write_answers<E, F, G>(
    first_step: F,
    second_step: G,
    first: Result<(), E>,
    second: Result<(), E>,
    r: Result<(), E>,
) -> bool where F: FnOnce() -> Result<(), E>, G: FnOnce() -> Result<(), E> {
    &&& call_ensures(first_step, (), first)
    &&& (first is Ok ==> call_ensures(second_step, (), second))
    &&& r == (if first is Err {
        first
    } else {
        second
    })
}

/// Runs two writes in order (the root key, then the registration): the
/// second runs only once the first succeeded, and the first failure is the
/// result.
pub fn write_in_order<E, F, G>(first_step: F, second_step: G) -> (r: Result<(), E>) where
    F: FnOnce() -> Result<(), E>,
    G: FnOnce() -> Result<(), E>,

    requires
        call_requires(first_step, ()),
        call_requires(second_step, ()),
    ensures
        exists|first: Result<(), E>, second: Result<(), E>|
            #[trigger] write_answers(first_step, second_step, first, second, r),
{
    let first = first_step();
    let ghost first_answer = first;
    match first {
        Err(e) => {
            let r = Err(e);
            proof {
                assert(write_answers(first_step, second_step, first_answer, first_answer, r));
            }
            r
        },
        Ok(()) => {
            let second = second_step();
            proof {
                assert(write_answers(first_step, second_step, first_answer, second, second));
            }
            second
        },
    }
}

} // verus!
