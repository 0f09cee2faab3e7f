//! The managers' shared base: lifecycle states, the uniform error
//! record, the lifecycle trait, and the registry that tracks each
//! manager's state by name.

use vstd::prelude::*;

use crate::strutil::str_eq;

verus! {

/// A manager's lifecycle state.
#[derive(Debug, Clone, Copy, PartialEq, Eq, Structural)]
pub enum ManagerState {
    Uninitialized,
    Initializing,
    Ready,
    Shutdown,
}

/// The uniform error record every manager reports with.
#[derive(Debug)]
pub struct ManagerError {
    pub manager: String,
    pub operation: String,
    pub message: String,
    pub error_type: String,
}

impl ManagerError {
    /// Build an error record from its four parts.
    pub fn new(manager: &str, operation: &str, message: &str, error_type: &str) -> (r:
        ManagerError)
        ensures
            r.manager@ == manager@,
            r.operation@ == operation@,
            r.message@ == message@,
            r.error_type@ == error_type@,
    {
        ManagerError {
            manager: String::from_str(manager),
            operation: String::from_str(operation),
            message: String::from_str(message),
            error_type: String::from_str(error_type),
        }
    }

    /// The log line this error is reported as.
    pub fn log(&self) -> (r: String)
        ensures
            r@ == "["@ + self.manager@ + "] "@ + self.operation@ + " failed: "@ + self.message@
                + " ("@ + self.error_type@ + ")"@,
    {
        let mut out = String::from_str("[");
        out.append(self.manager.as_str());
        out.append("] ");
        out.append(self.operation.as_str());
        out.append(" failed: ");
        out.append(self.message.as_str());
        out.append(" (");
        out.append(self.error_type.as_str());
        out.append(")");
        out
    }
}

impl Clone for ManagerError {
    fn clone(&self) -> (r: Self)
        ensures
            r == *self,
    {
        ManagerError {
            manager: self.manager.clone(),
            operation: self.operation.clone(),
            message: self.message.clone(),
            error_type: self.error_type.clone(),
        }
    }
}

/// What a manager operation returns.
pub type ManagerResult<T> = Result<T, ManagerError>;

/// The managers' common lifecycle.
pub trait BaseManager {
    /// The manager's name, as the registry and logs know it.
    fn name(&self) -> &'static str;

    /// Bring the manager up.
    fn initialize(&mut self) -> ManagerResult<()>;

    /// Shut the manager down.
    fn shutdown(&mut self) -> ManagerResult<()>;

    /// Is the manager healthy?
    fn health_check(&self) -> ManagerResult<()>;
}

/// One line a manager error is reported upward as.
pub fn format_manager_error(err: ManagerError) -> (r: String)
    ensures
        r@ == err.manager@ + "::"@ + err.operation@ + " - "@ + err.message@ + " ("@
            + err.error_type@ + ")"@,
{
    let mut out = err.manager;
    out.append("::");
    out.append(err.operation.as_str());
    out.append(" - ");
    out.append(err.message.as_str());
    out.append(" (");
    out.append(err.error_type.as_str());
    out.append(")");
    out
}

/// The state recorded under the first entry named `name`, if any.
pub open spec fn registry_lookup(s: Seq<(String, ManagerState)>, name: Seq<char>) -> Option<
    ManagerState,
>
    decreases s.len(),
{
    if s.len() == 0 {
        None
    } else if s[0].0@ == name {
        Some(s[0].1)
    } else {
        registry_lookup(s.drop_first(), name)
    }
}

/// [`registry_lookup`] is determined by a scan's findings.
proof fn lemma_registry_lookup_at(s: Seq<(String, ManagerState)>, name: Seq<char>, i: int)
    requires
        0 <= i <= s.len(),
        forall|j: int| 0 <= j < i ==> s[j].0@ != name,
        i < s.len() ==> s[i].0@ == name,
    ensures
        registry_lookup(s, name) == if i < s.len() {
            Some(s[i].1)
        } else {
            None::<ManagerState>
        },
    decreases s.len(),
{
    if s.len() == 0 {
    } else if i == 0 {
    } else {
        lemma_registry_lookup_at(s.drop_first(), name, i - 1);
    }
}

/// Replacing an entry's state changes exactly that name's lookup.
proof fn lemma_registry_lookup_update(
    s: Seq<(String, ManagerState)>,
    i: int,
    pair: (String, ManagerState),
    name: Seq<char>,
)
    requires
        0 <= i < s.len(),
        s[i].0@ == pair.0@,
        forall|j: int| 0 <= j < i ==> s[j].0@ != pair.0@,
    ensures
        registry_lookup(s.update(i, pair), name) == if name == pair.0@ {
            Some(pair.1)
        } else {
            registry_lookup(s, name)
        },
    decreases s.len(),
{
    let t = s.update(i, pair);
    if i == 0 {
        assert(t[0] == pair);
        assert(t.drop_first() =~= s.drop_first());
    } else {
        assert(t[0] == s[0]);
        assert(t.drop_first() =~= s.drop_first().update(i - 1, pair));
        lemma_registry_lookup_update(s.drop_first(), i - 1, pair, name);
    }
}

/// Appending an entry changes only an absent name's lookup.
proof fn lemma_registry_lookup_push(
    s: Seq<(String, ManagerState)>,
    pair: (String, ManagerState),
    name: Seq<char>,
)
    ensures
        registry_lookup(s.push(pair), name) == match registry_lookup(s, name) {
            Some(v) => Some(v),
            None => if name == pair.0@ {
                Some(pair.1)
            } else {
                None::<ManagerState>
            },
        },
    decreases s.len(),
{
    let t = s.push(pair);
    if s.len() == 0 {
        assert(t[0] == pair);
        assert(t.drop_first() =~= Seq::<(String, ManagerState)>::empty());
        assert(registry_lookup(Seq::<(String, ManagerState)>::empty(), name) is None);
        assert(registry_lookup(s, name) is None);
    } else {
        assert(t[0] == s[0]);
        assert(t.drop_first() =~= s.drop_first().push(pair));
        lemma_registry_lookup_push(s.drop_first(), pair, name);
    }
}

/// Tracks each registered manager's lifecycle state by name.
#[derive(Debug)]
pub struct ManagerRegistry {
    pub managers: Vec<(String, ManagerState)>,
}

impl ManagerRegistry {
    /// An empty registry.
    pub fn new() -> (r: ManagerRegistry)
        ensures
            forall|name: Seq<char>| registry_lookup(r.managers@, name) is None,
    {
        let r = ManagerRegistry { managers: Vec::new() };
        proof {
            assert(r.managers@.len() == 0);
        }
        r
    }

    /// Record `name` as registered and uninitialized, replacing any
    /// previous state it had.
    pub fn register(&mut self, name: &str)
        ensures
            registry_lookup(final(self).managers@, name@) == Some(ManagerState::Uninitialized),
            forall|other: Seq<char>|
                other != name@ ==> registry_lookup(final(self).managers@, other) == registry_lookup(
                    old(self).managers@,
                    other,
                ),
    {
        self.set_state(name, ManagerState::Uninitialized);
    }

    /// The state recorded for `name`, if it is registered.
    pub fn get_state(&self, name: &str) -> (r: Option<ManagerState>)
        ensures
            r == registry_lookup(self.managers@, name@),
    {
        let n = self.managers.len();
        let mut i: usize = 0;
        while i < n
            invariant
                n == self.managers@.len(),
                i <= n,
                forall|j: int| 0 <= j < i ==> self.managers@[j].0@ != name@,
            decreases n - i,
        {
            if str_eq(self.managers[i].0.as_str(), name) {
                proof {
                    lemma_registry_lookup_at(self.managers@, name@, i as int);
                }
                return Some(self.managers[i].1);
            }
            i = i + 1;
        }
        proof {
            lemma_registry_lookup_at(self.managers@, name@, n as int);
        }
        None
    }

    /// Record `state` for `name`, registering it if it was unknown.
    pub fn set_state(&mut self, name: &str, state: ManagerState)
        ensures
            registry_lookup(final(self).managers@, name@) == Some(state),
            forall|other: Seq<char>|
                other != name@ ==> registry_lookup(final(self).managers@, other) == registry_lookup(
                    old(self).managers@,
                    other,
                ),
    {
        let n = self.managers.len();
        let mut i: usize = 0;
        while i < n
            invariant
                n == self.managers@.len(),
                i <= n,
                self.managers@ == old(self).managers@,
                forall|j: int| 0 <= j < i ==> self.managers@[j].0@ != name@,
            decreases n - i,
        {
            if str_eq(self.managers[i].0.as_str(), name) {
                let key = String::from_str(name);
                proof {
                    lemma_registry_lookup_update(
                        self.managers@,
                        i as int,
                        (key, state),
                        name@,
                    );
                    assert forall|other: Seq<char>| other != name@ implies registry_lookup(
                        self.managers@.update(i as int, (key, state)),
                        other,
                    ) == registry_lookup(old(self).managers@, other) by {
                        lemma_registry_lookup_update(
                            self.managers@,
                            i as int,
                            (key, state),
                            other,
                        );
                    }
                }
                self.managers.set(i, (key, state));
                return ;
            }
            i = i + 1;
        }
        let key = String::from_str(name);
        proof {
            lemma_registry_lookup_at(self.managers@, name@, n as int);
            lemma_registry_lookup_push(self.managers@, (key, state), name@);
            assert forall|other: Seq<char>| other != name@ implies registry_lookup(
                self.managers@.push((key, state)),
                other,
            ) == registry_lookup(old(self).managers@, other) by {
                lemma_registry_lookup_push(self.managers@, (key, state), other);
            }
        }
        self.managers.push((key, state));
    }
}

} // verus!
