//! The texture filename table: decoding of the fixed ten-slot region at
//! the start of a BD1 buffer, and filename normalization.
//!
//! Each slot is 31 raw bytes of ASCII text. The name is the run of
//! characters before the first null among the first 30 bytes (the final
//! byte is reserved), with every backslash rewritten to a forward slash.

use crate::error::FormatError;
use vstd::prelude::*;
use vstd::string::StrSliceExecFns;

verus! {

/// Width in bytes of one texture filename slot.
pub const SLOT_BYTES: usize = 31;

/// Bytes of a slot that can carry name characters; the final byte is
/// reserved and never part of the name.
pub const NAME_BYTES: usize = 30;

/// Number of slots in the texture table.
pub const TABLE_SLOTS: usize = 10;

/// Width in bytes of the whole texture table region.
pub const TABLE_BYTES: usize = 310;

/// Path separator normalization of one character: a backslash becomes
/// a forward slash, everything else is unchanged.
pub open spec fn norm_char(c: char) -> char {
    if c == '\\' {
        '/'
    } else {
        c
    }
}

/// Path separator normalization of a whole name.
pub open spec fn normalize(s: Seq<char>) -> Seq<char> {
    s.map_values(|c: char| norm_char(c))
}

/// Law: normalization is idempotent. Normalizing an already-normalized
/// name yields the same name.
pub proof fn lemma_normalize_idempotent(s: Seq<char>)
    ensures
        normalize(normalize(s)) == normalize(s),
{
    assert(normalize(normalize(s)) =~= normalize(s));
}

/// Relies on `String::push`: appends the given character at the end of
/// the string.
#[verifier::external_body]
fn push_char(s: &mut String, c: char)
    ensures
        final(s)@ == old(s)@.push(c),
{
    s.push(c);
}

/// Rewrites every backslash in the name to a forward slash, leaving all
/// other characters in place.
pub fn normalize_filename(name: &str) -> (r: String)
    ensures
        r@ == normalize(name@),
{
    let n = name.unicode_len();
    let mut out = String::new();
    let mut j: usize = 0;
    while j < n
        invariant
            n == name@.len(),
            j <= n,
            out@.len() == j,
            forall|m: int| 0 <= m < j ==> out@[m] == norm_char(name@[m]),
        decreases n - j,
    {
        let c = name.get_char(j);
        if c == '\\' {
            push_char(&mut out, '/');
        } else {
            push_char(&mut out, c);
        }
        j += 1;
    }
    assert(out@ =~= normalize(name@));
    out
}

/// The slot is entirely single-byte ASCII text.
pub open spec fn slot_ascii(slot: Seq<u8>) -> bool {
    forall|i: int| 0 <= i < slot.len() ==> slot[i] < 128
}

/// Index of the first null byte among the first 30 bytes of the slot at
/// or after `j`, or 30 if there is none.
pub open spec fn first_null_from(slot: Seq<u8>, j: int) -> int
    decreases 30 - j,
{
    if j < 0 || j >= 30 {
        30
    } else if slot[j] == 0 {
        j
    } else {
        first_null_from(slot, j + 1)
    }
}

/// Index of the first null byte among the first 30 bytes of the slot,
/// or 30 if there is none.
pub open spec fn first_null(slot: Seq<u8>) -> int {
    first_null_from(slot, 0)
}

/// The filename a slot decodes to: the characters before the first
/// null, with backslashes rewritten to forward slashes.
pub open spec fn slot_name(slot: Seq<u8>) -> Seq<char> {
    normalize(Seq::new(first_null(slot) as nat, |i: int| slot[i] as char))
}

/// A null-free run of nonzero bytes before `j` means the scan for the
/// first null may as well start at `j`.
proof fn lemma_first_null_prefix(slot: Seq<u8>, j: int)
    requires
        0 <= j <= 30,
        forall|m: int| 0 <= m < j ==> slot[m] != 0,
    ensures
        first_null_from(slot, j) == first_null(slot),
    decreases j,
{
    if j > 0 {
        lemma_first_null_prefix(slot, j - 1);
        assert(first_null_from(slot, j - 1) == first_null_from(slot, j));
    }
}

/// The first-null index is in range, points at a null when below 30,
/// and everything before it is nonzero.
proof fn lemma_first_null_facts(slot: Seq<u8>, j: int)
    requires
        0 <= j <= 30,
    ensures
        j <= first_null_from(slot, j) <= 30,
        first_null_from(slot, j) < 30 ==> slot[first_null_from(slot, j)] == 0,
        forall|m: int| j <= m < first_null_from(slot, j) ==> slot[m] != 0,
    decreases 30 - j,
{
    if j < 30 && slot[j] != 0 {
        lemma_first_null_facts(slot, j + 1);
    }
}

/// The shape every decoded filename has: at most 30 characters, all of
/// them ASCII, none a null and none a backslash.
pub open spec fn normalized_name(s: Seq<char>) -> bool {
    &&& s.len() <= 30
    &&& forall|j: int|
        0 <= j < s.len() ==> s[j] != '\0' && s[j] != '\\' && (#[trigger] s[j] as u32) < 128
}

/// What a slot decodes to always has the shape of a normalized name.
pub proof fn lemma_slot_name_normalized(slot: Seq<u8>)
    requires
        slot.len() == SLOT_BYTES,
        slot_ascii(slot),
    ensures
        normalized_name(slot_name(slot)),
{
    lemma_first_null_facts(slot, 0);
    let name = slot_name(slot);
    assert forall|j: int| 0 <= j < name.len() implies name[j] != '\0' && name[j] != '\\' && (
    name[j] as u32) < 128 by {
        assert(name[j] == norm_char(slot[j] as char));
        assert(slot[j] != 0 && slot[j] < 128);
    }
}

/// Decodes one 31-byte filename slot starting at `pos`: checks that
/// every byte is ASCII, truncates at the first null among the first 30
/// bytes, and normalizes path separators.
pub fn decode_slot(bin: &Vec<u8>, pos: usize) -> (r: Result<String, FormatError>)
    requires
        pos + SLOT_BYTES <= bin@.len(),
    ensures
        ({
            let slot = bin@.subrange(pos as int, pos as int + SLOT_BYTES as int);
            match r {
                Ok(name) => slot_ascii(slot) && name@ == slot_name(slot),
                Err(e) => e == FormatError::InvalidEncoding && !slot_ascii(slot),
            }
        }),
{
    let ghost slot = bin@.subrange(pos as int, pos as int + SLOT_BYTES as int);
    proof {
        assert(bin.len() <= usize::MAX);
    }

    let mut j: usize = 0;
    while j < SLOT_BYTES && bin[pos + j] < 128
        invariant
            pos + SLOT_BYTES <= bin@.len() <= usize::MAX,
            slot == bin@.subrange(pos as int, pos as int + SLOT_BYTES as int),
            j <= SLOT_BYTES,
            forall|m: int| 0 <= m < j ==> slot[m] < 128,
        decreases SLOT_BYTES - j,
    {
        j += 1;
    }
    if j < SLOT_BYTES {
        assert(slot[j as int] == bin@[pos + j]);
        assert(!slot_ascii(slot));
        return Err(FormatError::InvalidEncoding);
    }
    assert(slot_ascii(slot));

    let mut j: usize = 0;
    while j < NAME_BYTES && bin[pos + j] != 0
        invariant
            pos + SLOT_BYTES <= bin@.len() <= usize::MAX,
            slot == bin@.subrange(pos as int, pos as int + SLOT_BYTES as int),
            j <= NAME_BYTES,
            forall|m: int| 0 <= m < j ==> slot[m] != 0,
        decreases NAME_BYTES - j,
    {
        assert(slot[j as int] == bin@[pos + j]);
        j += 1;
    }
    let k = j;
    proof {
        lemma_first_null_prefix(slot, k as int);
        if k < NAME_BYTES {
            assert(slot[k as int] == bin@[pos + k]);
        }
        assert(first_null_from(slot, k as int) == k);
    }

    let mut raw = String::new();
    let mut j: usize = 0;
    while j < k
        invariant
            pos + SLOT_BYTES <= bin@.len() <= usize::MAX,
            slot == bin@.subrange(pos as int, pos as int + SLOT_BYTES as int),
            k <= NAME_BYTES,
            j <= k,
            raw@.len() == j,
            forall|m: int| 0 <= m < j ==> raw@[m] == (slot[m] as char),
        decreases k - j,
    {
        let b = bin[pos + j];
        assert(slot[j as int] == bin@[pos + j]);
        push_char(&mut raw, b as char);
        j += 1;
    }
    assert(raw@ =~= Seq::new(first_null(slot) as nat, |i: int| slot[i] as char));

    let name = normalize_filename(raw.as_str());
    Ok(name)
}

/// The bytes of slot `i` of the texture table region.
pub open spec fn slot_at(b: Seq<u8>, i: int) -> Seq<u8> {
    b.subrange(31 * i, 31 * i + 31)
}

/// Every slot of the table region is ASCII text.
pub open spec fn table_ok(b: Seq<u8>) -> bool {
    forall|i: int| 0 <= i < 10 ==> slot_ascii(#[trigger] slot_at(b, i))
}

/// The texture table: one normalized filename per slot, in slot order.
/// The key of an entry is its position.
#[derive(Debug)]
pub struct TextureTable {
    pub filenames: Vec<String>,
}

impl View for TextureTable {
    type V = Seq<Seq<char>>;

    open spec fn view(&self) -> Seq<Seq<char>> {
        Seq::new(self.filenames@.len(), |i: int| self.filenames@[i]@)
    }
}

impl TextureTable {
    /// Exactly ten entries, for slots 0 through 9, each a normalized
    /// name.
    pub open spec fn wf(self) -> bool {
        &&& self@.len() == TABLE_SLOTS
        &&& forall|i: int| 0 <= i < 10 ==> normalized_name(#[trigger] self@[i])
    }

    /// Number of entries.
    pub fn len(&self) -> (n: usize)
        ensures
            n == self@.len(),
    {
        self.filenames.len()
    }

    /// The filename stored for slot `i`.
    pub fn get(&self, i: usize) -> (name: &String)
        requires
            i < self@.len(),
        ensures
            name@ == self@[i as int],
    {
        &self.filenames[i]
    }
}

/// Decodes the whole texture table region: ten slots of 31 bytes each
/// from the start of the buffer.
pub fn decode_table(bin: &Vec<u8>) -> (r: Result<TextureTable, FormatError>)
    requires
        TABLE_BYTES <= bin@.len(),
    ensures
        match r {
            Ok(t) => {
                &&& table_ok(bin@)
                &&& t.wf()
                &&& forall|i: int| 0 <= i < 10 ==> #[trigger] t@[i] == slot_name(slot_at(bin@, i))
            },
            Err(e) => e == FormatError::InvalidEncoding && !table_ok(bin@),
        },
{
    let mut filenames: Vec<String> = Vec::new();
    let mut i: usize = 0;
    while i < TABLE_SLOTS
        invariant
            TABLE_BYTES <= bin@.len(),
            i <= TABLE_SLOTS,
            filenames@.len() == i,
            forall|m: int| 0 <= m < i ==> slot_ascii(#[trigger] slot_at(bin@, m)),
            forall|m: int| 0 <= m < i ==> #[trigger] filenames@[m]@ == slot_name(slot_at(bin@, m)),
        decreases TABLE_SLOTS - i,
    {
        match decode_slot(bin, 31 * i) {
            Ok(name) => {
                assert(slot_at(bin@, i as int) == bin@.subrange(
                    (31 * i) as int,
                    (31 * i) as int + SLOT_BYTES as int,
                ));
                filenames.push(name);
            },
            Err(e) => {
                assert(!slot_ascii(slot_at(bin@, i as int)));
                return Err(e);
            },
        }
        i += 1;
    }
    let table = TextureTable { filenames };
    proof {
        assert forall|i: int| 0 <= i < 10 implies #[trigger] table@[i] == slot_name(
            slot_at(bin@, i),
        ) by {
            assert(table@[i] == table.filenames@[i]@);
        }
        assert forall|i: int| 0 <= i < 10 implies normalized_name(#[trigger] table@[i]) by {
            lemma_slot_name_normalized(slot_at(bin@, i));
        }
    }
    Ok(table)
}

} // verus!
