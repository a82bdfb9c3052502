//! Capability table: the per-connection, bidirectional mapping between
//! local object handles and the small integer ids that name them on the
//! wire.
//!
//! Exports are slots assigned by this side; an export id stays bound to
//! its object while the peer still holds references (`refcount >= 1`),
//! and no two live slots name the same object.  Imports are slots named
//! by the peer; their refcount counts the references this side holds.
//! Releasing more references than are held is a protocol violation and
//! leaves the table unchanged.

use vstd::prelude::*;

verus! {

/// One live export: a local object handle and how many references the
/// peer holds to it.
#[derive(Clone, Copy, PartialEq, Eq, Structural, Debug)]
pub struct ExportEntry {
    pub handle: u64,
    pub refcount: u64,
}

/// One live import: how many references this side still holds to the
/// peer's export of the same id, and how many it was ever granted.
#[derive(Clone, Copy, PartialEq, Eq, Structural, Debug)]
pub struct ImportEntry {
    pub refcount: u64,
    pub granted: u64,
}

#[derive(Clone, Copy, PartialEq, Eq, Structural, Debug)]
pub enum TableError {
    /// Every usable slot id is live.
    NoSpace,
    /// A refcount would pass `u64::MAX`.
    RefcountOverflow,
    /// The peer named a slot that is not live, or released more
    /// references than it holds.
    ProtocolViolation,
}

/// Export and import tables of one connection.
pub struct CapTable {
    pub exports: Vec<Option<ExportEntry>>,
    pub imports: Vec<Option<ImportEntry>>,
}

impl CapTable {
    pub open spec fn exports_wf(s: Seq<Option<ExportEntry>>) -> bool {
        &&& s.len() <= u32::MAX as int
        &&& forall|i: int, j: int|
            0 <= i < j < s.len() && s[i] is Some && s[j] is Some ==> (#[trigger] s[i])->Some_0.handle
                != (#[trigger] s[j])->Some_0.handle
        &&& forall|i: int|
            0 <= i < s.len() && s[i] is Some ==> (#[trigger] s[i])->Some_0.refcount >= 1
    }

    pub open spec fn imports_wf(s: Seq<Option<ImportEntry>>) -> bool {
        &&& s.len() <= u32::MAX as int
        &&& forall|i: int|
            0 <= i < s.len() && s[i] is Some ==> (#[trigger] s[i])->Some_0.refcount >= 1 && (
            #[trigger] s[i])->Some_0.refcount <= s[i]->Some_0.granted && (
            #[trigger] s[i])->Some_0.granted <= u32::MAX as u64
    }

    pub open spec fn wf(self) -> bool {
        &&& Self::exports_wf(self.exports@)
        &&& Self::imports_wf(self.imports@)
    }

    pub open spec fn live_export(s: Seq<Option<ExportEntry>>, id: int) -> bool {
        0 <= id < s.len() && s[id] is Some
    }

    pub open spec fn export_handle(s: Seq<Option<ExportEntry>>, id: int) -> u64 {
        s[id]->Some_0.handle
    }

    pub open spec fn export_rc(s: Seq<Option<ExportEntry>>, id: int) -> u64 {
        s[id]->Some_0.refcount
    }

    pub open spec fn has_export_of(s: Seq<Option<ExportEntry>>, handle: u64) -> bool {
        exists|i: int|
            0 <= i < s.len() && (#[trigger] s[i]) is Some && s[i]->Some_0.handle == handle
    }

    /// Exporting `handle` succeeds: its live slot (if any) can count one
    /// more reference, and otherwise a slot is free or can be added.
    pub open spec fn can_export(s: Seq<Option<ExportEntry>>, handle: u64) -> bool {
        if Self::has_export_of(s, handle) {
            forall|i: int|
                Self::live_export(s, i) && Self::export_handle(s, i) == handle
                    ==> #[trigger] Self::export_rc(s, i) < u64::MAX
        } else {
            s.len() < u32::MAX as int || exists|i: int|
                0 <= i < s.len() && (#[trigger] s[i]) is None
        }
    }

    pub open spec fn live_import(s: Seq<Option<ImportEntry>>, id: int) -> bool {
        0 <= id < s.len() && s[id] is Some
    }

    pub open spec fn import_rc(s: Seq<Option<ImportEntry>>, id: int) -> u64 {
        s[id]->Some_0.refcount
    }

    pub open spec fn import_granted(s: Seq<Option<ImportEntry>>, id: int) -> u64 {
        s[id]->Some_0.granted
    }

    pub fn new() -> (r: CapTable)
        ensures
            r.wf(),
            r.exports@ == Seq::<Option<ExportEntry>>::empty(),
            r.imports@ == Seq::<Option<ImportEntry>>::empty(),
    {
        CapTable { exports: Vec::new(), imports: Vec::new() }
    }

    /// Export a local object, reusing its live slot if it already has
    /// one (same object, same id — never a duplicate) and bumping the
    /// peer's reference count.
    pub fn export_local(&mut self, handle: u64) -> (r: Result<u32, TableError>)
        requires
            old(self).wf(),
        ensures
            final(self).wf(),
            final(self).imports@ == old(self).imports@,
            ({
                let s0 = old(self).exports@;
                let s1 = final(self).exports@;
                &&& (r is Ok <==> Self::can_export(s0, handle))
                &&& match r {
                    Ok(id) => {
                        &&& Self::live_export(s1, id as int)
                        &&& Self::export_handle(s1, id as int) == handle
                        &&& if Self::has_export_of(s0, handle) {
                            &&& Self::live_export(s0, id as int)
                            &&& Self::export_handle(s0, id as int) == handle
                            &&& Self::export_rc(s1, id as int) == Self::export_rc(s0, id as int)
                                + 1
                            &&& s1 == s0.update(
                                id as int,
                                Some(
                                    ExportEntry {
                                        handle,
                                        refcount: (Self::export_rc(s0, id as int) + 1) as u64,
                                    },
                                ),
                            )
                        } else {
                            &&& Self::export_rc(s1, id as int) == 1
                            &&& (((id as int) < s0.len() && s0[id as int] is None && s1
                                == s0.update(id as int, Some(ExportEntry { handle, refcount: 1 })))
                                || (id as int == s0.len() && s1 == s0.push(
                                Some(ExportEntry { handle, refcount: 1 }),
                            )))
                        }
                    },
                    Err(e) => {
                        &&& s1 == s0
                        &&& (e == TableError::RefcountOverflow || e == TableError::NoSpace)
                        &&& e == TableError::RefcountOverflow ==> exists|i: int|
                            Self::live_export(s0, i) && Self::export_handle(s0, i) == handle
                                && Self::export_rc(s0, i) == u64::MAX
                        &&& e == TableError::NoSpace ==> !Self::has_export_of(s0, handle)
                            && s0.len() == u32::MAX as int && (forall|k: int|
                            0 <= k < s0.len() ==> (#[trigger] s0[k]) is Some)
                    },
                }
            }),
    {
        let n = self.exports.len();
        let mut i: usize = 0;
        while i < n
            invariant
                self.wf(),
                *self == *old(self),
                n == self.exports@.len(),
                i <= n,
                forall|k: int|
                    0 <= k < i ==> !((#[trigger] self.exports@[k]) is Some
                        && self.exports@[k]->Some_0.handle == handle),
            decreases n - i,
        {
            let cur: Option<ExportEntry> = self.exports[i];
            match cur {
                Some(e) => {
                    if e.handle == handle {
                        if e.refcount == u64::MAX {
                            proof {
                                let s0 = self.exports@;
                                assert(Self::live_export(s0, i as int) && Self::export_handle(
                                    s0,
                                    i as int,
                                ) == handle && Self::export_rc(s0, i as int) == u64::MAX);
                            }
                            return Err(TableError::RefcountOverflow);
                        }
                        self.exports[i] = Some(
                            ExportEntry { handle, refcount: e.refcount + 1 },
                        );
                        return Ok(i as u32);
                    }
                },
                None => {},
            }
            i = i + 1;
        }
        let mut j: usize = 0;
        while j < n
            invariant
                self.wf(),
                *self == *old(self),
                n == self.exports@.len(),
                j <= n,
                forall|k: int|
                    0 <= k < n ==> !((#[trigger] self.exports@[k]) is Some
                        && self.exports@[k]->Some_0.handle == handle),
                forall|k: int| 0 <= k < j ==> (#[trigger] self.exports@[k]) is Some,
            decreases n - j,
        {
            let cur: Option<ExportEntry> = self.exports[j];
            if cur.is_none() {
                self.exports[j] = Some(ExportEntry { handle, refcount: 1 });
                return Ok(j as u32);
            }
            j = j + 1;
        }
        if n < u32::MAX as usize {
            self.exports.push(Some(ExportEntry { handle, refcount: 1 }));
            return Ok(n as u32);
        }
        Err(TableError::NoSpace)
    }

    /// Apply a `Release` from the peer to an export slot.  Releasing an
    /// id that is not live, or more references than are held, is a
    /// protocol violation and changes nothing.  `Ok(0)` means the slot
    /// was freed and the object may be disposed locally.
    pub fn release_export(&mut self, id: u32, delta: u64) -> (r: Result<u64, TableError>)
        requires
            old(self).wf(),
        ensures
            final(self).wf(),
            final(self).imports@ == old(self).imports@,
            ({
                let s0 = old(self).exports@;
                let s1 = final(self).exports@;
                &&& (r is Ok <==> Self::live_export(s0, id as int) && delta <= Self::export_rc(
                    s0,
                    id as int,
                ))
                &&& match r {
                    Ok(rem) => {
                        &&& rem == Self::export_rc(s0, id as int) - delta
                        &&& if rem == 0 {
                            s1 == s0.update(id as int, Option::<ExportEntry>::None)
                        } else {
                            s1 == s0.update(
                                id as int,
                                Some(
                                    ExportEntry {
                                        handle: Self::export_handle(s0, id as int),
                                        refcount: rem,
                                    },
                                ),
                            )
                        }
                    },
                    Err(e) => e == TableError::ProtocolViolation && s1 == s0,
                }
            }),
    {
        if (id as usize) < self.exports.len() {
            let cur: Option<ExportEntry> = self.exports[id as usize];
            match cur {
                Some(e) => {
                    if delta <= e.refcount {
                        let rem = e.refcount - delta;
                        if rem == 0 {
                            self.exports[id as usize] = None;
                        } else {
                            self.exports[id as usize] = Some(
                                ExportEntry { handle: e.handle, refcount: rem },
                            );
                        }
                        Ok(rem)
                    } else {
                        Err(TableError::ProtocolViolation)
                    }
                },
                None => Err(TableError::ProtocolViolation),
            }
        } else {
            Err(TableError::ProtocolViolation)
        }
    }

    /// Record one more reference to the peer's export `id`, creating
    /// the import slot on first sight.  Returns the reference count now
    /// held.
    pub fn import_remote(&mut self, id: u32) -> (r: Result<u64, TableError>)
        requires
            old(self).wf(),
        ensures
            final(self).wf(),
            final(self).exports@ == old(self).exports@,
            ({
                let s0 = old(self).imports@;
                let s1 = final(self).imports@;
                match r {
                    Ok(rc) => {
                        &&& Self::live_import(s1, id as int)
                        &&& rc == Self::import_rc(s1, id as int)
                        &&& if Self::live_import(s0, id as int) {
                            &&& rc == Self::import_rc(s0, id as int) + 1
                            &&& s1 == s0.update(
                                id as int,
                                Some(
                                    ImportEntry {
                                        refcount: rc,
                                        granted: (Self::import_granted(s0, id as int) + 1) as u64,
                                    },
                                ),
                            )
                        } else {
                            &&& rc == 1
                            &&& forall|k: int|
                                0 <= k < s0.len() && k != id as int ==> s1[k] == #[trigger] s0[k]
                            &&& forall|k: int|
                                s0.len() <= k < s1.len() && k != id as int ==> (
                                #[trigger] s1[k]) is None
                        }
                    },
                    Err(e) => {
                        &&& s1 == s0
                        &&& (e == TableError::RefcountOverflow || e == TableError::NoSpace)
                        &&& e == TableError::RefcountOverflow ==> Self::live_import(s0, id as int)
                            && Self::import_granted(s0, id as int) == u32::MAX as u64
                        &&& e == TableError::NoSpace ==> id == u32::MAX
                    },
                }
            }),
    {
        if id == u32::MAX {
            return Err(TableError::NoSpace);
        }
        if (id as usize) < self.imports.len() {
            let cur: Option<ImportEntry> = self.imports[id as usize];
            match cur {
                Some(e) => {
                    if e.granted == u32::MAX as u64 {
                        return Err(TableError::RefcountOverflow);
                    }
                    self.imports[id as usize] = Some(
                        ImportEntry { refcount: e.refcount + 1, granted: e.granted + 1 },
                    );
                    return Ok(e.refcount + 1);
                },
                None => {
                    self.imports[id as usize] = Some(ImportEntry { refcount: 1, granted: 1 });
                    return Ok(1);
                },
            }
        }
        while self.imports.len() < id as usize
            invariant
                old(self).wf(),
                self.exports@ == old(self).exports@,
                self.imports@.len() <= id as int,
                id < u32::MAX,
                old(self).imports@.len() <= self.imports@.len(),
                forall|k: int|
                    0 <= k < old(self).imports@.len() ==> self.imports@[k] == #[trigger] old(
                        self,
                    ).imports@[k],
                forall|k: int|
                    old(self).imports@.len() <= k < self.imports@.len() ==> (
                    #[trigger] self.imports@[k]) is None,
            decreases id as int - self.imports@.len(),
        {
            self.imports.push(None);
        }
        self.imports.push(Some(ImportEntry { refcount: 1, granted: 1 }));
        proof {
            let s0 = old(self).imports@;
            let s1 = self.imports@;
            assert forall|k: int| 0 <= k < s1.len() && s1[k] is Some implies (
            #[trigger] s1[k])->Some_0.refcount >= 1 && (#[trigger] s1[k])->Some_0.refcount <= s1[
                k
            ]->Some_0.granted && (#[trigger] s1[k])->Some_0.granted <= u32::MAX as u64 by {
                if k < s0.len() {
                    assert(s1[k] == s0[k]);
                }
            }
        }
        Ok(1)
    }

    /// Drop one locally held reference to import `id`.  Returns the
    /// references remaining and the total ever granted; on a result of
    /// zero remaining the slot is freed and a `Release` for the whole
    /// granted count is owed to the peer.  Dropping an import that is
    /// not live is a protocol violation.
    pub fn drop_import(&mut self, id: u32) -> (r: Result<(u64, u64), TableError>)
        requires
            old(self).wf(),
        ensures
            final(self).wf(),
            final(self).exports@ == old(self).exports@,
            ({
                let s0 = old(self).imports@;
                let s1 = final(self).imports@;
                &&& (r is Ok <==> Self::live_import(s0, id as int))
                &&& match r {
                    Ok((rem, granted)) => {
                        &&& rem == Self::import_rc(s0, id as int) - 1
                        &&& granted == Self::import_granted(s0, id as int)
                        &&& if rem == 0 {
                            s1 == s0.update(id as int, Option::<ImportEntry>::None)
                        } else {
                            s1 == s0.update(
                                id as int,
                                Some(ImportEntry { refcount: rem, granted }),
                            )
                        }
                    },
                    Err(e) => e == TableError::ProtocolViolation && s1 == s0,
                }
            }),
    {
        if (id as usize) < self.imports.len() {
            let cur: Option<ImportEntry> = self.imports[id as usize];
            match cur {
                Some(e) => {
                    let rem = e.refcount - 1;
                    if rem == 0 {
                        self.imports[id as usize] = None;
                    } else {
                        self.imports[id as usize] = Some(
                            ImportEntry { refcount: rem, granted: e.granted },
                        );
                    }
                    Ok((rem, e.granted))
                },
                None => Err(TableError::ProtocolViolation),
            }
        } else {
            Err(TableError::ProtocolViolation)
        }
    }
}

/// Law: export ids never duplicate an object — two live slots holding
/// the same handle are the same slot.
pub proof fn lemma_export_ids_unique(t: CapTable, i: int, j: int)
    requires
        t.wf(),
        CapTable::live_export(t.exports@, i),
        CapTable::live_export(t.exports@, j),
        CapTable::export_handle(t.exports@, i) == CapTable::export_handle(t.exports@, j),
    ensures
        i == j,
{
    let s = t.exports@;
    if i < j {
        assert(s[i] is Some && s[j] is Some);
    } else if j < i {
        assert(s[j] is Some && s[i] is Some);
    }
}

} // verus!
