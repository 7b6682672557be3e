//! Syscall dispatch tables: per-personality maps from syscall id to a
//! handler token, with the table under `usize::MAX` acting as the default.
//! The embedding kernel maps tokens to routines.
use vstd::prelude::*;
use crate::errors::SyscallError;
use crate::errors::SyscallErrorCode;

verus! {

/// What a syscall entry point received: the syscall id.
pub struct SyscallParameters {
    id: usize,
}

impl SyscallParameters {
    pub closed spec fn spec_id(self) -> usize {
        self.id
    }

    pub fn new(id: usize) -> (r: Self)
        ensures
            r.spec_id() == id,
    {
        Self { id }
    }

    pub fn id(&self) -> (r: usize)
        ensures
            r == self.spec_id(),
    {
        self.id
    }
}

/// The handler registered under `id` in an association list, if any; the
/// latest registration wins.
pub open spec fn spec_lookup(s: Seq<(usize, u64)>, id: usize) -> Option<u64>
    decreases s.len(),
{
    if s.len() == 0 {
        None
    } else if s.last().0 == id {
        Some(s.last().1)
    } else {
        spec_lookup(s.drop_last(), id)
    }
}

/// No syscall id appears twice.
pub open spec fn spec_unique_ids(s: Seq<(usize, u64)>) -> bool {
    forall|j: int, k: int| 0 <= j < k < s.len() ==> s[j].0 != s[k].0
}

proof fn lemma_lookup_update(s: Seq<(usize, u64)>, j: int, id: usize, callback: u64)
    requires
        spec_unique_ids(s),
        0 <= j < s.len(),
        s[j].0 == id,
    ensures
        spec_lookup(s.update(j, (id, callback)), id) == Some(callback),
        forall|other: usize|
            other != id ==> spec_lookup(s.update(j, (id, callback)), other) == spec_lookup(
                s,
                other,
            ),
    decreases s.len(),
{
    if j == s.len() - 1 {
        assert(s.update(j, (id, callback)).drop_last() =~= s.drop_last());
        assert(s.update(j, (id, callback)).last() == (id, callback));
        assert forall|other: usize| other != id implies spec_lookup(
            s.update(j, (id, callback)),
            other,
        ) == spec_lookup(s, other) by {
            assert(spec_lookup(s.update(j, (id, callback)), other) == spec_lookup(
                s.drop_last(),
                other,
            ));
            assert(spec_lookup(s, other) == spec_lookup(s.drop_last(), other));
        }
    } else {
        assert(s.update(j, (id, callback)).drop_last() =~= s.drop_last().update(
            j,
            (id, callback),
        ));
        assert(s.update(j, (id, callback)).last() == s.last());
        assert(spec_unique_ids(s.drop_last()));
        assert(s.drop_last()[j] == s[j]);
        lemma_lookup_update(s.drop_last(), j, id, callback);
        assert(s[j].0 != s.last().0);
        assert forall|other: usize| other != id implies spec_lookup(
            s.update(j, (id, callback)),
            other,
        ) == spec_lookup(s, other) by {
            if other != s.last().0 {
                assert(spec_lookup(s.update(j, (id, callback)), other) == spec_lookup(
                    s.drop_last().update(j, (id, callback)),
                    other,
                ));
                assert(spec_lookup(s, other) == spec_lookup(s.drop_last(), other));
            }
        }
    }
}

/// One personality's syscall table: id to handler token.
#[derive(Clone)]
pub struct SyscallTable {
    calls: Vec<(usize, u64)>,
}

impl SyscallTable {
    pub closed spec fn spec_calls(self) -> Seq<(usize, u64)> {
        self.calls@
    }

    pub open spec fn wf(self) -> bool {
        spec_unique_ids(self.spec_calls())
    }

    /// The handler registered under `id`, at the spec level.
    pub open spec fn spec_handler(self, id: usize) -> Option<u64> {
        spec_lookup(self.spec_calls(), id)
    }

    /// An empty table: no syscall, not even a default, is handled.
    pub fn new() -> (r: SyscallTable)
        ensures
            r.wf(),
            forall|id: usize| r.spec_handler(id) is None,
    {
        let r = SyscallTable { calls: Vec::new() };
        proof {
            assert forall|id: usize| r.spec_handler(id) is None by {
                assert(r.spec_calls().len() == 0);
            }
        }
        r
    }

    /// Index of the entry for `id`, if one exists.
    fn find(&self, id: usize) -> (r: Option<usize>)
        ensures
            match r {
                Some(j) => j < self.spec_calls().len() && self.spec_calls()[j as int].0 == id,
                None => forall|j: int|
                    0 <= j < self.spec_calls().len() ==> (#[trigger] self.spec_calls()[j]).0 != id,
            },
    {
        let mut j: usize = 0;
        while j < self.calls.len()
            invariant
                0 <= j <= self.spec_calls().len(),
                forall|k: int| 0 <= k < j ==> (#[trigger] self.spec_calls()[k]).0 != id,
            decreases self.spec_calls().len() - j,
        {
            if self.calls[j].0 == id {
                return Some(j);
            }
            j = j + 1;
        }
        None
    }

    /// Register the handler for syscall `id`, replacing an earlier one.
    pub fn set_handler(&mut self, id: usize, callback: u64)
        requires
            old(self).wf(),
        ensures
            final(self).wf(),
            final(self).spec_handler(id) == Some(callback),
            forall|other: usize|
                other != id ==> final(self).spec_handler(other) == old(self).spec_handler(other),
    {
        let ghost pre = self.spec_calls();
        match self.find(id) {
            Some(j) => {
                self.calls[j] = (id, callback);
                proof {
                    lemma_lookup_update(pre, j as int, id, callback);
                    assert(spec_unique_ids(self.spec_calls()));
                }
            },
            None => {
                self.calls.push((id, callback));
                proof {
                    assert(self.spec_calls().drop_last() =~= pre);
                    assert forall|a: int, b: int|
                        0 <= a < b < self.spec_calls().len() implies self.spec_calls()[a].0
                        != self.spec_calls()[b].0 by {
                        if b == self.spec_calls().len() - 1 {
                            assert(pre[a].0 != id);
                        }
                    }
                }
            },
        }
    }

    /// Register the handler that runs when no specific one is found.
    pub fn set_default_handler(&mut self, callback: u64)
        requires
            old(self).wf(),
        ensures
            final(self).wf(),
            final(self).spec_handler(usize::MAX) == Some(callback),
            forall|other: usize|
                other != usize::MAX ==> final(self).spec_handler(other) == old(self).spec_handler(
                    other,
                ),
    {
        self.set_handler(usize::MAX, callback)
    }

    /// The handler for the requested syscall: the entry under its id, else
    /// the default entry, else the no-such-syscall error.
    pub fn try_get_syscall(&self, parameters: &SyscallParameters) -> (r: Result<
        u64,
        SyscallError,
    >)
        requires
            self.wf(),
        ensures
            match r {
                Ok(token) => self.spec_handler(parameters.spec_id()) == Some(token) || (
                self.spec_handler(parameters.spec_id()) is None && self.spec_handler(usize::MAX)
                    == Some(token)),
                Err(e) => {
                    &&& self.spec_handler(parameters.spec_id()) is None
                    &&& self.spec_handler(usize::MAX) is None
                    &&& e.spec_error_code() == SyscallErrorCode::NoSyscall
                },
            },
    {
        proof {
            lemma_lookup_find(self.spec_calls(), parameters.spec_id());
            lemma_lookup_find(self.spec_calls(), usize::MAX);
        }
        match self.find(parameters.id) {
            Some(j) => Ok(self.calls[j].1),
            None => {
                match self.find(usize::MAX) {
                    Some(j) => Ok(self.calls[j].1),
                    None => Err(SyscallError::no_such_system_call()),
                }
            },
        }
    }
}

/// A found entry pins the lookup result, and no entry means none.
proof fn lemma_lookup_find(s: Seq<(usize, u64)>, id: usize)
    requires
        spec_unique_ids(s),
    ensures
        forall|j: int|
            0 <= j < s.len() && (#[trigger] s[j]).0 == id ==> spec_lookup(s, id) == Some(s[j].1),
        (forall|j: int| 0 <= j < s.len() ==> (#[trigger] s[j]).0 != id) ==> spec_lookup(s, id)
            is None,
    decreases s.len(),
{
    if s.len() > 0 {
        assert(spec_unique_ids(s.drop_last()));
        lemma_lookup_find(s.drop_last(), id);
        assert forall|j: int|
            0 <= j < s.len() && (#[trigger] s[j]).0 == id implies spec_lookup(s, id) == Some(
            s[j].1,
        ) by {
            if j < s.len() - 1 {
                assert(s.drop_last()[j] == s[j]);
                assert(s.last().0 != s[j].0);
            }
        }
        if forall|j: int| 0 <= j < s.len() ==> (#[trigger] s[j]).0 != id {
            assert(s[s.len() - 1].0 != id);
        }
    }
}

/// The personality registered under `id`, if any; the latest registration
/// wins.
pub open spec fn spec_tables_lookup(s: Seq<(usize, SyscallTable)>, id: usize) -> Option<
    SyscallTable,
>
    decreases s.len(),
{
    if s.len() == 0 {
        None
    } else if s.last().0 == id {
        Some(s.last().1)
    } else {
        spec_tables_lookup(s.drop_last(), id)
    }
}

proof fn lemma_tables_lookup_update(
    s: Seq<(usize, SyscallTable)>,
    j: int,
    id: usize,
    table: SyscallTable,
)
    requires
        forall|a: int, b: int| 0 <= a < b < s.len() ==> s[a].0 != s[b].0,
        0 <= j < s.len(),
        s[j].0 == id,
    ensures
        spec_tables_lookup(s.update(j, (id, table)), id) == Some(table),
        forall|other: usize|
            other != id ==> spec_tables_lookup(s.update(j, (id, table)), other)
                == spec_tables_lookup(s, other),
    decreases s.len(),
{
    if j == s.len() - 1 {
        assert(s.update(j, (id, table)).drop_last() =~= s.drop_last());
        assert(s.update(j, (id, table)).last() == (id, table));
        assert forall|other: usize| other != id implies spec_tables_lookup(
            s.update(j, (id, table)),
            other,
        ) == spec_tables_lookup(s, other) by {
            assert(spec_tables_lookup(s.update(j, (id, table)), other) == spec_tables_lookup(
                s.drop_last(),
                other,
            ));
            assert(spec_tables_lookup(s, other) == spec_tables_lookup(s.drop_last(), other));
        }
    } else {
        assert(s.update(j, (id, table)).drop_last() =~= s.drop_last().update(j, (id, table)));
        assert(s.update(j, (id, table)).last() == s.last());
        assert(forall|a: int, b: int|
            0 <= a < b < s.drop_last().len() ==> s.drop_last()[a].0 != s.drop_last()[b].0);
        assert(s.drop_last()[j] == s[j]);
        lemma_tables_lookup_update(s.drop_last(), j, id, table);
        assert(s[j].0 != s.last().0);
        assert forall|other: usize| other != id implies spec_tables_lookup(
            s.update(j, (id, table)),
            other,
        ) == spec_tables_lookup(s, other) by {
            if other != s.last().0 {
                assert(spec_tables_lookup(s.update(j, (id, table)), other) == spec_tables_lookup(
                    s.drop_last().update(j, (id, table)),
                    other,
                ));
                assert(spec_tables_lookup(s, other) == spec_tables_lookup(s.drop_last(), other));
            }
        }
    }
}

/// A found entry pins the registry lookup, and no entry means none.
proof fn lemma_tables_lookup_find(s: Seq<(usize, SyscallTable)>, id: usize)
    requires
        forall|a: int, b: int| 0 <= a < b < s.len() ==> s[a].0 != s[b].0,
    ensures
        forall|j: int|
            0 <= j < s.len() && (#[trigger] s[j]).0 == id ==> spec_tables_lookup(s, id) == Some(
                s[j].1,
            ),
        (forall|j: int| 0 <= j < s.len() ==> (#[trigger] s[j]).0 != id) ==> spec_tables_lookup(
            s,
            id,
        ) is None,
    decreases s.len(),
{
    if s.len() > 0 {
        assert(forall|a: int, b: int|
            0 <= a < b < s.drop_last().len() ==> s.drop_last()[a].0 != s.drop_last()[b].0);
        lemma_tables_lookup_find(s.drop_last(), id);
        assert forall|j: int|
            0 <= j < s.len() && (#[trigger] s[j]).0 == id implies spec_tables_lookup(s, id)
            == Some(s[j].1) by {
            if j < s.len() - 1 {
                assert(s.drop_last()[j] == s[j]);
                assert(s.last().0 != s[j].0);
            }
        }
        if forall|j: int| 0 <= j < s.len() ==> (#[trigger] s[j]).0 != id {
            assert(s[s.len() - 1].0 != id);
        }
    }
}

/// The registered personalities, each with its own syscall table. The
/// native personality lives under `usize::MAX`.
pub struct SyscallTables {
    tables: Vec<(usize, SyscallTable)>,
}

impl SyscallTables {
    pub closed spec fn spec_tables(self) -> Seq<(usize, SyscallTable)> {
        self.tables@
    }

    pub open spec fn wf(self) -> bool {
        forall|j: int, k: int|
            0 <= j < k < self.spec_tables().len() ==> self.spec_tables()[j].0
                != self.spec_tables()[k].0
    }

    /// Whether a personality with this id is registered.
    pub open spec fn spec_has_personality(self, id: usize) -> bool {
        exists|j: int| 0 <= j < self.spec_tables().len() && (#[trigger] self.spec_tables()[j]).0 == id
    }

    /// The personality registered under `id`, if any.
    pub open spec fn spec_personality(self, id: usize) -> Option<SyscallTable> {
        spec_tables_lookup(self.spec_tables(), id)
    }

    /// No personality is registered yet.
    pub fn new() -> (r: SyscallTables)
        ensures
            r.wf(),
            r.spec_tables().len() == 0,
    {
        SyscallTables { tables: Vec::new() }
    }

    fn find(&self, id: usize) -> (r: Option<usize>)
        ensures
            match r {
                Some(j) => j < self.spec_tables().len() && self.spec_tables()[j as int].0 == id,
                None => forall|j: int|
                    0 <= j < self.spec_tables().len() ==> (#[trigger] self.spec_tables()[j]).0 != id,
            },
    {
        let mut j: usize = 0;
        while j < self.tables.len()
            invariant
                0 <= j <= self.spec_tables().len(),
                forall|k: int| 0 <= k < j ==> (#[trigger] self.spec_tables()[k]).0 != id,
            decreases self.spec_tables().len() - j,
        {
            if self.tables[j].0 == id {
                return Some(j);
            }
            j = j + 1;
        }
        None
    }

    /// Install the syscall table of a personality, replacing an earlier
    /// one; every other personality keeps its table.
    pub fn register_personality(&mut self, id: usize, personality_table: SyscallTable)
        requires
            old(self).wf(),
        ensures
            final(self).wf(),
            final(self).spec_has_personality(id),
            final(self).spec_personality(id) == Some(personality_table),
            forall|other: usize|
                other != id ==> final(self).spec_personality(other) == old(self).spec_personality(
                    other,
                ),
    {
        let ghost pre = self.spec_tables();
        match self.find(id) {
            Some(j) => {
                self.tables[j] = (id, personality_table);
                proof {
                    assert(final(self).spec_tables()[j as int] == (id, personality_table));
                    lemma_tables_lookup_update(pre, j as int, id, personality_table);
                }
            },
            None => {
                self.tables.push((id, personality_table));
                proof {
                    assert(self.spec_tables().drop_last() =~= pre);
                    assert(final(self).spec_tables().last() == (id, personality_table));
                    let ghost n = self.spec_tables().len();
                    assert(final(self).spec_tables()[n - 1] == (id, personality_table));
                    assert forall|a: int, b: int|
                        0 <= a < b < self.spec_tables().len() implies self.spec_tables()[a].0
                        != self.spec_tables()[b].0 by {
                        if b == self.spec_tables().len() - 1 {
                            assert(pre[a].0 != id);
                        }
                    }
                }
            },
        }
    }

    /// The table of a personality, if registered.
    pub fn get_personality(&self, id: usize) -> (r: Option<&SyscallTable>)
        requires
            self.wf(),
        ensures
            match r {
                Some(t) => self.spec_personality(id) == Some(*t),
                None => self.spec_personality(id) is None && !self.spec_has_personality(id),
            },
    {
        proof {
            lemma_tables_lookup_find(self.spec_tables(), id);
        }
        match self.find(id) {
            Some(j) => Some(&self.tables[j].1),
            None => None,
        }
    }

    /// Replace a personality's table wholesale, creating the personality if
    /// it was absent; every other personality keeps its table.
    pub fn update_personality(&mut self, id: usize, table: SyscallTable)
        requires
            old(self).wf(),
        ensures
            final(self).wf(),
            final(self).spec_has_personality(id),
            final(self).spec_personality(id) == Some(table),
            forall|other: usize|
                other != id ==> final(self).spec_personality(other) == old(self).spec_personality(
                    other,
                ),
    {
        self.register_personality(id, table)
    }
}

/// Bring up syscall dispatch: one native personality under `usize::MAX`
/// whose default handler is the given token.
pub fn init(native_default_handler: u64) -> (r: SyscallTables)
    ensures
        r.wf(),
        r.spec_has_personality(usize::MAX),
        r.spec_personality(usize::MAX) matches Some(native) && native.spec_handler(usize::MAX)
            == Some(native_default_handler),
{
    let mut native_personality = SyscallTable::new();
    native_personality.set_default_handler(native_default_handler);
    let mut tables = SyscallTables::new();
    tables.register_personality(usize::MAX, native_personality);
    tables
}

} // verus!
