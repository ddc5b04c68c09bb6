//! PSI sections, tables and descriptors.

pub mod desc;
pub mod table;

use vstd::prelude::*;

use core::hash::BuildHasherDefault;
use std::collections::HashMap;

use fxhash::{FxHashMap, FxHasher};

use crate::isdb::crc::{calc32, crc32_of};
use crate::isdb::utils::{be16, be16_at, be32, be32_at};

verus! {

/// The errors of [`PsiSection::parse`].
///
/// The errors found once the section length is known carry that length.
#[derive(Debug, Clone, Copy, PartialEq, Eq, Structural)]
pub enum PsiError {
    /// The PSI section is cut short.
    InsufficientLength,
    /// The end of the PSI sections was reached.
    EndOfPsi,
    /// The section lacks the minimum number of bytes and is corrupt.
    Corrupted(usize),
    /// The section's CRC-32 does not match.
    Crc32(usize),
}

/// The section syntax of a PSI section.
#[derive(Debug, Clone, Copy, PartialEq, Eq, Structural)]
pub struct PsiSectionSyntax {
    /// Table identifier extension.
    pub table_id_extension: u16,
    /// Version number (5 bits).
    pub version_number: u8,
    /// Current/next indicator.
    pub current_next_indicator: bool,
    /// Section number.
    pub section_number: u8,
    /// Last section number.
    pub last_section_number: u8,
}

/// A PSI section.
#[derive(Debug, Clone, Copy)]
pub struct PsiSection<'a> {
    /// Table identifier.
    pub table_id: u8,
    /// Section syntax.
    pub syntax: Option<PsiSectionSyntax>,
    /// The section's data.
    pub data: &'a [u8],
    /// The section's CRC.
    pub crc32: u32,
}

/// The 12-bit section length coded in `buf`.
pub open spec fn section_length(buf: Seq<u8>) -> int {
    (be16(buf, 1) & 0x0FFF) as int
}

/// The section syntax coded in the section `psi`.
pub open spec fn syntax_of(psi: Seq<u8>) -> PsiSectionSyntax {
    PsiSectionSyntax {
        table_id_extension: be16(psi, 3),
        version_number: (psi[5] & 0x3E) >> 1,
        current_next_indicator: psi[5] & 0x01 != 0,
        section_number: psi[6],
        last_section_number: psi[7],
    }
}

/// What [`PsiSection::parse`] returns for `buf`, with the section as the bytes
/// of its data.
pub open spec fn parse_result(buf: Seq<u8>) -> Result<(u8, Option<PsiSectionSyntax>, Seq<u8>, u32, int), PsiError> {
    if buf.len() < 3 {
        Err(PsiError::InsufficientLength)
    } else if buf[0] == 0xFF {
        Err(PsiError::EndOfPsi)
    } else if buf.len() < 3 + section_length(buf) {
        Err(PsiError::InsufficientLength)
    } else {
        let n = 3 + section_length(buf);
        let psi = buf.subrange(0, n);
        if crc32_of(psi) != 0 {
            Err(PsiError::Crc32(n as usize))
        } else if buf[1] & 0x80 != 0 {
            if n < 12 {
                Err(PsiError::Corrupted(n as usize))
            } else {
                Ok((buf[0], Some(syntax_of(psi)), psi.subrange(8, n - 4), be32(psi, n - 4), n))
            }
        } else {
            if n < 7 {
                Err(PsiError::Corrupted(n as usize))
            } else {
                Ok((buf[0], None, psi.subrange(3, n - 4), be32(psi, n - 4), n))
            }
        }
    }
}

impl<'a> PsiSection<'a> {
    /// Parses a PSI section and returns it with the section's length.
    pub fn parse(buf: &'a [u8]) -> (r: Result<(PsiSection<'a>, usize), PsiError>)
        ensures
            match (r, parse_result(buf@)) {
                (Ok((s, n)), Ok((tid, syntax, data, crc, len))) => s.table_id == tid && s.syntax
                    == syntax && s.data@ == data && s.crc32 == crc && n == len,
                (Err(e), Err(f)) => e == f,
                _ => false,
            },
    {
        if buf.len() < 3 {
            return Err(PsiError::InsufficientLength);
        }
        let table_id = buf[0];
        if table_id == 0xFF {
            return Err(PsiError::EndOfPsi);
        }
        let section_syntax_indicator = buf[1] & 0x80 != 0;
        let section_len = (be16_at(buf, 1) & 0x0FFF) as usize;
        if buf.len() - 3 < section_len {
            return Err(PsiError::InsufficientLength);
        }
        let n = 3 + section_len;
        let psi = &buf[0..n];
        if !calc32(psi) {
            return Err(PsiError::Crc32(n));
        }
        let (syntax, data) = if section_syntax_indicator {
            if n < 12 {
                return Err(PsiError::Corrupted(n));
            }
            let ss = PsiSectionSyntax {
                table_id_extension: be16_at(psi, 3),
                version_number: (psi[5] & 0x3E) >> 1,
                current_next_indicator: psi[5] & 0x01 != 0,
                section_number: psi[6],
                last_section_number: psi[7],
            };
            (Some(ss), &psi[8..n - 4])
        } else {
            if n < 7 {
                return Err(PsiError::Corrupted(n));
            }
            (None, &psi[3..n - 4])
        };
        let crc32 = be32_at(psi, n - 4);
        Ok((PsiSection { table_id, syntax, data, crc32 }, n))
    }
}

/// A PSI table that can be decoded from a section.
pub trait PsiTable<'a>: Sized {
    /// Whether `psi` is a section that decodes as this table.
    spec fn spec_readable(psi: PsiSection<'a>) -> bool;

    /// Whether `t` is what `psi` decodes to.
    spec fn spec_decodes(psi: PsiSection<'a>, t: Self) -> bool;

    /// Reads the table from a section.
    fn read(psi: &PsiSection<'a>) -> (r: Option<Self>)
        ensures
            r is Some <==> Self::spec_readable(*psi),
            r matches Some(t) ==> Self::spec_decodes(*psi, t),
    ;
}

/// `fxhash::FxHasher`, an opaque type here.
#[verifier::external_type_specification]
#[verifier::external_body]
pub struct ExFxHasher(FxHasher);

/// `std::hash::BuildHasherDefault`, an opaque type here; with
/// `FxHasher` it is the hasher of `FxHashMap`.
#[verifier::external_type_specification]
#[verifier::external_body]
#[verifier::reject_recursive_types(H)]
pub struct ExBuildHasherDefault<H>(BuildHasherDefault<H>);

/// The version numbers held in a map from subtable keys to the version of
/// each section.
pub uninterp spec fn version_table(m: HashMap<u32, Vec<u8>, BuildHasherDefault<FxHasher>>) -> Map<
    u32,
    Seq<u8>,
>;

/// `FxHashMap::default`: an empty map.
#[verifier::external_body]
fn versions_new() -> (r: FxHashMap<u32, Vec<u8>>)
    ensures
        version_table(r).dom() == Set::<u32>::empty(),
{
    FxHashMap::default()
}

/// `HashMap::remove`: takes the entry of `key` out of the map and returns
/// its value, if there was one.
#[verifier::external_body]
fn versions_remove(m: &mut FxHashMap<u32, Vec<u8>>, key: u32) -> (r: Option<Vec<u8>>)
    ensures
        version_table(*final(m)) == version_table(*old(m)).remove(key),
        match r {
            Some(v) => version_table(*old(m)).contains_key(key) && v@ == version_table(
                *old(m),
            )[key],
            None => !version_table(*old(m)).contains_key(key),
        },
{
    m.remove(&key)
}

/// `HashMap::insert`: maps `key` to `v`, replacing any value it had.
#[verifier::external_body]
fn versions_insert(m: &mut FxHashMap<u32, Vec<u8>>, key: u32, v: Vec<u8>)
    ensures
        version_table(*final(m)) == version_table(*old(m)).insert(key, v@),
{
    m.insert(key, v);
}

/// `HashMap::clear`: removes every entry.
#[verifier::external_body]
fn versions_clear(m: &mut FxHashMap<u32, Vec<u8>>)
    ensures
        version_table(*final(m)).dom() == Set::<u32>::empty(),
{
    m.clear();
}

/// The key of the subtable of table `table_id` and extension `ext`.
pub open spec fn subtable_key(table_id: u8, ext: u16) -> u32 {
    (table_id * 0x10000 + ext) as u32
}

/// `v` cut or padded with the invalid version 0xFF to `len` sections.
pub open spec fn resized(v: Seq<u8>, len: nat) -> Seq<u8> {
    if len <= v.len() {
        v.subrange(0, len as int)
    } else {
        v + Seq::new((len - v.len()) as nat, |i: int| 0xFFu8)
    }
}

/// The versions of the sections of the subtable of `key` in `m`, none when
/// it has not been read.
pub open spec fn versions_in(m: Map<u32, Seq<u8>>, key: u32) -> Seq<u8> {
    if m.contains_key(key) {
        m[key]
    } else {
        Seq::empty()
    }
}

/// The versions that [`Repository::read`] leaves after reading a section of
/// table `table_id` with syntax `s` from the versions `m`, and whether the
/// section is read: it is when its version differs from the one recorded.
pub open spec fn after_read(m: Map<u32, Seq<u8>>, table_id: u8, s: PsiSectionSyntax) -> (Map<
    u32,
    Seq<u8>,
>, bool) {
    let len = s.last_section_number + 1;
    let idx = s.section_number;
    if idx >= len {
        (m, false)
    } else {
        let key = subtable_key(table_id, s.table_id_extension);
        let v = resized(versions_in(m, key), len as nat);
        if v[idx as int] == s.version_number {
            (m.insert(key, v), false)
        } else {
            (m.insert(key, v.update(idx as int, s.version_number)), true)
        }
    }
}

/// The versions that [`Repository::unset`] leaves after marking a section of
/// table `table_id` with syntax `s` as not read in the versions `m`.
pub open spec fn after_unset(m: Map<u32, Seq<u8>>, table_id: u8, s: PsiSectionSyntax) -> Map<
    u32,
    Seq<u8>,
> {
    let len = s.last_section_number + 1;
    let idx = s.section_number;
    let key = subtable_key(table_id, s.table_id_extension);
    if idx < len && m.contains_key(key) && idx < m[key].len() {
        m.insert(key, m[key].update(idx as int, 0xFFu8))
    } else {
        m
    }
}

/// Version tracking of PSI tables: a section is read again only when its
/// version changes.
#[derive(Debug, Clone)]
pub struct Repository {
    subtable_versions: FxHashMap<u32, Vec<u8>>,
}

impl View for Repository {
    type V = Map<u32, Seq<u8>>;

    /// The recorded version of each section, by subtable key.
    closed spec fn view(&self) -> Map<u32, Seq<u8>> {
        version_table(self.subtable_versions)
    }
}

impl Repository {
    /// An empty repository.
    pub fn new() -> (r: Repository)
        ensures
            r@ == Map::<u32, Seq<u8>>::empty(),
    {
        let r = Repository { subtable_versions: versions_new() };
        assert(r@ =~= Map::<u32, Seq<u8>>::empty());
        r
    }

    /// Reads the table `T` from `psi` when its section is new or its version
    /// changed, and records the version; returns `None` when the version is
    /// the one recorded, when the section number is past the last section
    /// number, or when `T` cannot be read from `psi`. A section without
    /// section syntax is always read.
    pub fn read<'a, T: PsiTable<'a>>(&mut self, psi: &PsiSection<'a>) -> (r: Option<T>)
        ensures
            match psi.syntax {
                None => final(self)@ == old(self)@ && (r is Some <==> T::spec_readable(*psi)),
                Some(s) => final(self)@ == after_read(old(self)@, psi.table_id, s).0 && (r is Some
                    <==> after_read(old(self)@, psi.table_id, s).1 && T::spec_readable(*psi)),
            },
            r matches Some(t) ==> T::spec_decodes(*psi, t),
    {
        let s = match psi.syntax {
            Some(s) => s,
            None => {
                return T::read(psi);
            },
        };
        let len = s.last_section_number as usize + 1;
        let idx = s.section_number as usize;
        if idx >= len {
            return None;
        }
        let key: u32 = psi.table_id as u32 * 0x10000 + s.table_id_extension as u32;
        let ghost old_map = self@;
        let mut versions = match versions_remove(&mut self.subtable_versions, key) {
            Some(v) => v,
            None => Vec::new(),
        };
        assert(versions@ == versions_in(old_map, key));
        let ghost v0 = versions@;
        if versions.len() > len {
            versions.truncate(len);
        }
        while versions.len() < len
            invariant
                len <= 256,
                versions@.len() <= len,
                v0.len() < len ==> versions@ == v0 + Seq::new(
                    (versions@.len() - v0.len()) as nat,
                    |i: int| 0xFFu8,
                ),
                v0.len() >= len ==> versions@ == v0.subrange(0, len as int),
            decreases len - versions@.len(),
        {
            versions.push(0xFF);
        }
        assert(versions@ =~= resized(v0, len as nat));
        if versions[idx] == s.version_number {
            versions_insert(&mut self.subtable_versions, key, versions);
            assert(self@ =~= old_map.insert(key, resized(v0, len as nat)));
            return None;
        }
        versions.set(idx, s.version_number);
        versions_insert(&mut self.subtable_versions, key, versions);
        assert(self@ =~= after_read(old_map, psi.table_id, s).0);
        T::read(psi)
    }

    /// Marks the section `psi` as not read, so that [`Repository::read`]
    /// reads it again; for a table that was read before it could be
    /// processed.
    pub fn unset(&mut self, psi: &PsiSection)
        ensures
            match psi.syntax {
                None => final(self)@ == old(self)@,
                Some(s) => final(self)@ == after_unset(old(self)@, psi.table_id, s),
            },
    {
        let s = match psi.syntax {
            Some(s) => s,
            None => {
                return;
            },
        };
        let len = s.last_section_number as usize + 1;
        let idx = s.section_number as usize;
        if idx >= len {
            return;
        }
        let key: u32 = psi.table_id as u32 * 0x10000 + s.table_id_extension as u32;
        let ghost old_map = self@;
        let mut versions = match versions_remove(&mut self.subtable_versions, key) {
            Some(v) => v,
            None => {
                assert(self@ =~= old_map);
                return;
            },
        };
        if idx < versions.len() {
            versions.set(idx, 0xFF);
        }
        versions_insert(&mut self.subtable_versions, key, versions);
        assert(self@ =~= after_unset(old_map, psi.table_id, s));
    }

    /// Forgets every recorded version.
    pub fn clear(&mut self)
        ensures
            final(self)@ == Map::<u32, Seq<u8>>::empty(),
    {
        versions_clear(&mut self.subtable_versions);
        assert(self@ =~= Map::<u32, Seq<u8>>::empty());
    }
}

impl Default for Repository {
    /// An empty repository.
    fn default() -> (r: Repository)
        ensures
            r@ == Map::<u32, Seq<u8>>::empty(),
    {
        Repository::new()
    }
}

/// Reading a section a second time with the same version reads nothing:
/// the second [`Repository::read`] returns `None`.
pub proof fn law_read_twice(m: Map<u32, Seq<u8>>, table_id: u8, s: PsiSectionSyntax)
    ensures
        !after_read(after_read(m, table_id, s).0, table_id, s).1,
        after_read(after_read(m, table_id, s).0, table_id, s).0 == after_read(m, table_id, s).0,
{
    let len = s.last_section_number + 1;
    let key = subtable_key(table_id, s.table_id_extension);
    if s.section_number < len {
        let m1 = after_read(m, table_id, s).0;
        let v1 = m1[key];
        assert(resized(v1, len as nat) =~= v1);
        assert(m1.insert(key, v1) =~= m1);
    }
}

/// A section marked as not read is read again by the next
/// [`Repository::read`], whose section numbers are in range and whose
/// version is a 5-bit version number.
pub proof fn law_unset_then_read(m: Map<u32, Seq<u8>>, table_id: u8, s: PsiSectionSyntax)
    requires
        s.section_number <= s.last_section_number,
        s.version_number < 0x20,
    ensures
        after_read(after_unset(after_read(m, table_id, s).0, table_id, s), table_id, s).1,
{
    let len = s.last_section_number + 1;
    let key = subtable_key(table_id, s.table_id_extension);
    let m1 = after_read(m, table_id, s).0;
    let m2 = after_unset(m1, table_id, s);
    assert(m2[key] =~= m1[key].update(s.section_number as int, 0xFFu8));
    assert(resized(m2[key], len as nat) =~= m2[key]);
}

/// After [`Repository::clear`] every section with in-range section numbers
/// is read again.
pub proof fn law_clear_then_read(table_id: u8, s: PsiSectionSyntax)
    requires
        s.section_number <= s.last_section_number,
        s.version_number < 0x20,
    ensures
        after_read(Map::<u32, Seq<u8>>::empty(), table_id, s).1,
{
}

/// Subtables are told apart by table id and extension together: two
/// subtables share a key only when both their table ids and their extensions
/// are equal.
pub proof fn law_subtable_key_distinct(t1: u8, e1: u16, t2: u8, e2: u16)
    ensures
        subtable_key(t1, e1) == subtable_key(t2, e2) ==> t1 == t2 && e1 == e2,
{
    assert(0 <= t1 * 0x10000 + e1 < 0x1000000);
    assert(0 <= t2 * 0x10000 + e2 < 0x1000000);
    assert(subtable_key(t1, e1) == t1 * 0x10000 + e1);
    assert(subtable_key(t2, e2) == t2 * 0x10000 + e2);
}

/// Reading a section of one subtable leaves the recorded versions of every
/// other subtable as they were, so that a section of table `t2` with
/// extension `s2.table_id_extension` is read or not exactly as it would be
/// had the other section not been read; in particular, into an empty
/// repository, the first read of each subtable is read.
pub proof fn law_other_subtable_unaffected(
    m: Map<u32, Seq<u8>>,
    t1: u8,
    s1: PsiSectionSyntax,
    t2: u8,
    s2: PsiSectionSyntax,
)
    requires
        t1 != t2 || s1.table_id_extension != s2.table_id_extension,
    ensures
        versions_in(after_read(m, t1, s1).0, subtable_key(t2, s2.table_id_extension))
            == versions_in(m, subtable_key(t2, s2.table_id_extension)),
        after_read(after_read(m, t1, s1).0, t2, s2).1 == after_read(m, t2, s2).1,
        s2.section_number <= s2.last_section_number && s2.version_number < 0x20 ==> after_read(
            after_read(Map::<u32, Seq<u8>>::empty(), t1, s1).0,
            t2,
            s2,
        ).1,
{
    law_subtable_key_distinct(t1, s1.table_id_extension, t2, s2.table_id_extension);
}

} // verus!
