//! The WAD archive: a header, the lumps' bytes, and a directory that names them.
use crate::bytes::{le_u32, read_u32_at};
use crate::error::WadError;
use crate::palette::{decode_palette, palette_of, PALETTE_BYTES, PALETTE_COLOURS};
use crate::picture::{decode_lump_image, is_picture_of, picture_decodes, DecodedImage};
use vstd::prelude::*;
use vstd::slice::{slice_subrange, slice_to_vec};
use vstd::string::{is_ascii, StringSliceAdditionalSpecFns};

verus! {

/// Size of the archive header: magic, lump count, directory offset.
pub const ARCHIVE_HEADER_BYTES: usize = 12;

/// Size of one directory entry: offset, size, name.
pub const DIR_ENTRY_BYTES: usize = 16;

/// Size of the name field of a directory entry.
pub const NAME_BYTES: usize = 8;

/// The bytes of `PLAYPAL`.
pub open spec fn palette_lump_name() -> Seq<u8> {
    seq![0x50u8, 0x4C, 0x41, 0x59, 0x50, 0x41, 0x4C]
}

/// A lump as its trimmed name and its bytes.
pub type LumpModel = (Seq<u8>, Seq<u8>);

/// Bytes that pad a lump name: NUL and space.
pub open spec fn is_name_pad(c: u8) -> bool {
    c == 0 || c == 32
}

/// A name field with its trailing padding removed.
pub open spec fn trim_name(s: Seq<u8>) -> Seq<u8>
    decreases s.len(),
{
    if s.len() > 0 && is_name_pad(s.last()) {
        trim_name(s.drop_last())
    } else {
        s
    }
}

/// The archive starts with `IWAD` (a base archive) or `PWAD` (a patch archive).
pub open spec fn magic_ok(b: Seq<u8>) -> bool {
    &&& b[0] == 0x49 || b[0] == 0x50
    &&& b[1] == 0x57
    &&& b[2] == 0x41
    &&& b[3] == 0x44
}

pub open spec fn lump_count(b: Seq<u8>) -> int {
    le_u32(b, 4)
}

pub open spec fn directory_offset(b: Seq<u8>) -> int {
    le_u32(b, 8)
}

/// Position of the `i`-th directory entry.
pub open spec fn entry_pos(b: Seq<u8>, i: int) -> int {
    directory_offset(b) + DIR_ENTRY_BYTES * i
}

pub open spec fn entry_start(b: Seq<u8>, i: int) -> int {
    le_u32(b, entry_pos(b, i))
}

pub open spec fn entry_size(b: Seq<u8>, i: int) -> int {
    le_u32(b, entry_pos(b, i) + 4)
}

pub open spec fn entry_name(b: Seq<u8>, i: int) -> Seq<u8> {
    trim_name(b.subrange(entry_pos(b, i) + 8, entry_pos(b, i) + 16))
}

/// The bytes of the `i`-th lump lie inside the archive.
pub open spec fn entry_in_bounds(b: Seq<u8>, i: int) -> bool {
    entry_start(b, i) + entry_size(b, i) <= b.len()
}

pub open spec fn entry_bytes(b: Seq<u8>, i: int) -> Seq<u8> {
    b.subrange(entry_start(b, i), entry_start(b, i) + entry_size(b, i))
}

/// The directory of archive `b`, in file order.
pub open spec fn directory(b: Seq<u8>) -> Seq<LumpModel> {
    Seq::new(lump_count(b) as nat, |i: int| (entry_name(b, i), entry_bytes(b, i)))
}

/// What loading the archive `b` gives: its directory, or the error.
pub open spec fn load_result(b: Seq<u8>) -> Result<Seq<LumpModel>, WadError> {
    if b.len() < ARCHIVE_HEADER_BYTES {
        Err(WadError::IoError)
    } else if !magic_ok(b) {
        Err(WadError::FormatError)
    } else if directory_offset(b) + DIR_ENTRY_BYTES * lump_count(b) > b.len() {
        Err(WadError::IoError)
    } else if exists|i: int| 0 <= i < lump_count(b) && !#[trigger] entry_in_bounds(b, i) {
        Err(WadError::FormatError)
    } else {
        Ok(directory(b))
    }
}

/// The name-to-bytes table that a directory gives: entries are taken in order,
/// and a later entry replaces an earlier one of the same name.
pub open spec fn lump_table(d: Seq<LumpModel>) -> Map<Seq<u8>, Seq<u8>>
    decreases d.len(),
{
    if d.len() == 0 {
        Map::empty()
    } else {
        lump_table(d.drop_last()).insert(d.last().0, d.last().1)
    }
}

/// One named lump.
pub struct Lump {
    pub name: Vec<u8>,
    pub data: Vec<u8>,
}

impl View for Lump {
    type V = LumpModel;

    open spec fn view(&self) -> LumpModel {
        (self.name@, self.data@)
    }
}

/// The models of a sequence of lumps.
pub open spec fn lumps_model(s: Seq<Lump>) -> Seq<LumpModel> {
    s.map_values(|l: Lump| l@)
}

/// A loaded archive: every directory entry, in file order.
pub struct WadFile {
    lumps: Vec<Lump>,
}

impl WadFile {
    /// The archive's directory, in file order.
    pub closed spec fn spec_directory(&self) -> Seq<LumpModel> {
        lumps_model(self.lumps@)
    }
}

/// `w` is what loading the bytes `b` gives.
pub open spec fn is_archive_of(w: WadFile, b: Seq<u8>) -> bool {
    load_result(b) matches Ok(d) && w.spec_directory() == d
}

impl View for WadFile {
    type V = Map<Seq<u8>, Seq<u8>>;

    open spec fn view(&self) -> Map<Seq<u8>, Seq<u8>> {
        lump_table(self.spec_directory())
    }
}

/// Copies the name field at `pos` without its trailing padding.
fn read_name(data: &[u8], pos: usize) -> (r: Vec<u8>)
    requires
        pos + NAME_BYTES <= data@.len(),
    ensures
        r@ == trim_name(data@.subrange(pos as int, pos + NAME_BYTES)),
{
    let ghost field = data@.subrange(pos as int, pos + NAME_BYTES);
    let len = data.len();
    let mut n: usize = NAME_BYTES;
    while n > 0 && (data[pos + n - 1] == 0 || data[pos + n - 1] == 32)
        invariant
            n <= NAME_BYTES,
            pos + NAME_BYTES <= data@.len(),
            len == data@.len(),
            field == data@.subrange(pos as int, pos + NAME_BYTES),
            trim_name(field) == trim_name(data@.subrange(pos as int, pos + n)),
        decreases n,
    {
        let ghost cur = data@.subrange(pos as int, pos + n);
        assert(cur.drop_last() =~= data@.subrange(pos as int, pos + n - 1));
        n = n - 1;
    }
    slice_to_vec(slice_subrange(data, pos, pos + n))
}

/// Whether two byte strings are equal.
fn same_bytes(a: &[u8], b: &[u8]) -> (r: bool)
    ensures
        r == (a@ == b@),
{
    if a.len() != b.len() {
        return false;
    }
    let mut i: usize = 0;
    while i < a.len()
        invariant
            a@.len() == b@.len(),
            i <= a@.len(),
            forall|j: int| 0 <= j < i ==> a@[j] == b@[j],
        decreases a@.len() - i,
    {
        if a[i] != b[i] {
            return false;
        }
        i = i + 1;
    }
    assert(a@ =~= b@);
    true
}

/// Entries after position `k` that bear other names leave the table's entry
/// for `name` as the first `k` entries gave it.
proof fn lemma_table_skips_other_names(d: Seq<LumpModel>, k: int, name: Seq<u8>)
    requires
        0 <= k <= d.len(),
        forall|j: int| k <= j < d.len() ==> (#[trigger] d[j]).0 != name,
    ensures
        lump_table(d).contains_key(name) == lump_table(d.take(k)).contains_key(name),
        lump_table(d)[name] == lump_table(d.take(k))[name],
    decreases d.len(),
{
    if d.len() == k {
        assert(d.take(k) =~= d);
    } else {
        let rest = d.drop_last();
        assert(rest.take(k) =~= d.take(k));
        assert(d[d.len() - 1] == d.last());
        lemma_table_skips_other_names(rest, k, name);
    }
}

/// In the table that a directory gives, a name maps to the bytes of the last
/// entry that bears it.
pub proof fn lemma_last_entry_wins(d: Seq<LumpModel>, i: int)
    requires
        0 <= i < d.len(),
        forall|j: int| i < j < d.len() ==> (#[trigger] d[j]).0 != d[i].0,
    ensures
        lump_table(d).contains_key(d[i].0),
        lump_table(d)[d[i].0] == d[i].1,
{
    lemma_table_skips_other_names(d, i + 1, d[i].0);
    assert(d.take(i + 1).drop_last() =~= d.take(i));
    assert(d.take(i + 1).last() == d[i]);
}

/// When an archive loads, looking up the name of directory entry `i`, where no
/// later entry bears the same name, gives the bytes of entry `i`: of several
/// entries with one name, the last one wins.
pub proof fn lemma_load_last_entry_wins(b: Seq<u8>, w: WadFile, i: int)
    requires
        is_archive_of(w, b),
        0 <= i < lump_count(b),
        forall|j: int| i < j < lump_count(b) ==> #[trigger] entry_name(b, j) != entry_name(b, i),
    ensures
        w@.contains_key(entry_name(b, i)),
        w@[entry_name(b, i)] == entry_bytes(b, i),
{
    let d = directory(b);
    assert forall|j: int| i < j < d.len() implies (#[trigger] d[j]).0 != d[i].0 by {
        assert(entry_name(b, j) != entry_name(b, i));
    }
    lemma_last_entry_wins(d, i);
}

/// Loading the same bytes twice gives the same archive.
pub proof fn lemma_load_deterministic(b: Seq<u8>, w1: WadFile, w2: WadFile)
    requires
        is_archive_of(w1, b),
        is_archive_of(w2, b),
    ensures
        w1.spec_directory() == w2.spec_directory(),
        w1@ == w2@,
{
}

/// A directory entry whose bytes run past the end of the archive makes the
/// whole load fail with `FormatError`, provided the header and the directory
/// themselves lie within the archive.
pub proof fn lemma_lump_past_end_fails(b: Seq<u8>, i: int)
    requires
        b.len() >= ARCHIVE_HEADER_BYTES,
        directory_offset(b) + DIR_ENTRY_BYTES * lump_count(b) <= b.len(),
        0 <= i < lump_count(b),
        entry_start(b, i) + entry_size(b, i) > b.len(),
    ensures
        load_result(b) == Err::<Seq<LumpModel>, WadError>(WadError::FormatError),
{
    assert(!entry_in_bounds(b, i));
}

impl WadFile {
    /// Parses an archive held in memory. Fails with `IoError` where the
    /// header or the directory is cut short, and with `FormatError` where the
    /// magic is neither `IWAD` nor `PWAD` or a lump lies past the end of the
    /// archive. A failed load returns no archive at all.
    pub fn load(data: &[u8]) -> (r: Result<WadFile, WadError>)
        ensures
            match load_result(data@) {
                Err(e) => r == Err::<WadFile, WadError>(e),
                Ok(_) => r matches Ok(w) && is_archive_of(w, data@),
            },
    {
        let ghost b = data@;
        let len = data.len();
        if len < ARCHIVE_HEADER_BYTES {
            return Err(WadError::IoError);
        }
        if !((data[0] == 0x49 || data[0] == 0x50) && data[1] == 0x57 && data[2] == 0x41 && data[3]
            == 0x44) {
            return Err(WadError::FormatError);
        }
        let count = read_u32_at(data, 4);
        let dir = read_u32_at(data, 8);
        if dir as u64 + 16 * (count as u64) > data.len() as u64 {
            return Err(WadError::IoError);
        }
        let mut lumps: Vec<Lump> = Vec::new();
        let mut i: u32 = 0;
        while i < count
            invariant
                b == data@,
                len == b.len(),
                b.len() >= ARCHIVE_HEADER_BYTES,
                magic_ok(b),
                count as int == lump_count(b),
                dir as int == directory_offset(b),
                directory_offset(b) + DIR_ENTRY_BYTES * lump_count(b) <= b.len(),
                i <= count,
                lumps_model(lumps@) == directory(b).take(i as int),
                forall|j: int| 0 <= j < i ==> #[trigger] entry_in_bounds(b, j),
            decreases count - i,
        {
            let pos = dir as usize + DIR_ENTRY_BYTES * (i as usize);
            assert(pos as int == entry_pos(b, i as int));
            let start = read_u32_at(data, pos);
            let size = read_u32_at(data, pos + 4);
            if start as u64 + size as u64 > data.len() as u64 {
                assert(!entry_in_bounds(b, i as int));
                return Err(WadError::FormatError);
            }
            let name = read_name(data, pos + 8);
            let bytes = slice_to_vec(
                slice_subrange(data, start as usize, start as usize + size as usize),
            );
            let ghost old_lumps = lumps@;
            lumps.push(Lump { name, data: bytes });
            assert(lumps_model(lumps@) =~= lumps_model(old_lumps).push(directory(b)[i as int]));
            assert(directory(b).take(i + 1) =~= directory(b).take(i as int).push(directory(b)[i as int]));
            i = i + 1;
        }
        assert(directory(b).take(count as int) =~= directory(b));
        Ok(WadFile { lumps })
    }

    /// Looks a lump up by its name as bytes.
    fn find_lump(&self, name: &[u8]) -> (r: Option<&Vec<u8>>)
        ensures
            match r {
                Some(v) => self@.contains_key(name@) && v@ == self@[name@],
                None => !self@.contains_key(name@),
            },
    {
        let ghost d = self.spec_directory();
        let mut i: usize = self.lumps.len();
        while i > 0
            invariant
                d == lumps_model(self.lumps@),
                i <= self.lumps@.len(),
                forall|j: int| i <= j < d.len() ==> (#[trigger] d[j]).0 != name@,
            decreases i,
        {
            let lump = &self.lumps[i - 1];
            if same_bytes(lump.name.as_slice(), name) {
                proof {
                    lemma_table_skips_other_names(d, i as int, name@);
                    assert(d.take(i as int).drop_last() =~= d.take(i - 1));
                    assert(d.take(i as int).last() == d[i - 1]);
                }
                return Some(&lump.data);
            }
            i = i - 1;
        }
        proof {
            lemma_table_skips_other_names(d, 0, name@);
        }
        None
    }

    /// The bytes of the lump named `name`; where the directory names it more
    /// than once, those of the last such entry.
    pub fn get_lump(&self, name: &str) -> (r: Option<&Vec<u8>>)
        ensures
            match r {
                Some(v) => self@.contains_key(name.spec_bytes()) && v@ == self@[name.spec_bytes()],
                None => !self@.contains_key(name.spec_bytes()),
            },
    {
        self.find_lump(name.as_bytes())
    }

    /// Decodes the picture lump `name` with the first palette of the `PLAYPAL`
    /// lump. Fails with `NotFound` where either lump is absent, and with
    /// `FormatError` where the palette is short or the picture does not decode.
    pub fn get_image(&self, name: &str) -> (r: Result<DecodedImage, WadError>)
        ensures
            ({
                let key = name.spec_bytes();
                let pk = palette_lump_name();
                if !self@.contains_key(key) || !self@.contains_key(pk) {
                    r == Err::<DecodedImage, WadError>(WadError::NotFound)
                } else if self@[pk].len() < PALETTE_BYTES || !picture_decodes(
                    self@[key],
                    PALETTE_COLOURS as int,
                ) {
                    r == Err::<DecodedImage, WadError>(WadError::FormatError)
                } else {
                    r matches Ok(img) && is_picture_of(img, self@[key], palette_of(self@[pk]))
                }
            }),
    {
        let lump = match self.get_lump(name) {
            None => {
                return Err(WadError::NotFound);
            },
            Some(l) => l,
        };
        let pal_str: &str = "PLAYPAL";
        proof {
            reveal_strlit("PLAYPAL");
            vstd::string::is_ascii_spec_bytes(pal_str);
            assert(is_ascii(pal_str));
        }
        let pal_name = pal_str.as_bytes();
        assert(pal_name@ =~= palette_lump_name());
        let palette_lump = match self.find_lump(pal_name) {
            None => {
                return Err(WadError::NotFound);
            },
            Some(l) => l,
        };
        let palette = match decode_palette(palette_lump) {
            Err(e) => {
                return Err(e);
            },
            Ok(p) => p,
        };
        decode_lump_image(lump, &palette)
    }
}

} // verus!
