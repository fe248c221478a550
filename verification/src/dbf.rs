//! Decoding of the attribute-table (DBF-style) header and field-descriptor
//! records: fixed 32-byte slots whose field boundaries are inferred from
//! header-declared lengths.
use vstd::prelude::*;
use vstd::slice::slice_subrange;

verus! {

/// Size in bytes of the attribute-file header.
pub const HEADER_SIZE: usize = 32;

/// Size in bytes of one field-descriptor slot.
pub const FIELD_DESCRIPTOR_SIZE: usize = 32;

/// Width in bytes of the NUL-padded name field of a descriptor slot.
pub const FIELD_NAME_SIZE: usize = 11;

/// Errors that may happen when reading an attribute table or deriving
/// counts from its header fields.
#[derive(Debug)]
pub enum Error {
    /// The input could not supply the required bytes (short read).
    IoError,
    /// A field descriptor declared a type character outside the
    /// recognized set; carries the offending character.
    InvalidFieldType(char),
    /// A derived count would be negative or non-integral; carries the
    /// offending value.
    ArithmeticInconsistency(i64),
}

/// The recognized attribute-column type codes.
#[derive(Debug, Clone, Copy, PartialEq, Eq, Structural)]
pub enum FieldType {
    Character,
    Currency,
    Numeric,
    Float,
    Date,
    DateTime,
    Double,
    Integer,
    Logical,
    Memo,
    General,
}

/// The closed lookup table from a type character to its variant; a
/// character outside the table maps to `None`.
pub open spec fn spec_field_type(c: char) -> Option<FieldType> {
    match c {
        'C' => Some(FieldType::Character),
        'Y' => Some(FieldType::Currency),
        'N' => Some(FieldType::Numeric),
        'F' => Some(FieldType::Float),
        'D' => Some(FieldType::Date),
        'T' => Some(FieldType::DateTime),
        'B' => Some(FieldType::Double),
        'I' => Some(FieldType::Integer),
        'L' => Some(FieldType::Logical),
        'M' => Some(FieldType::Memo),
        'G' => Some(FieldType::General),
        _ => None,
    }
}

impl FieldType {
    /// Map a type character through the closed lookup table.
    pub fn from(c: char) -> (r: Option<FieldType>)
        ensures
            r == spec_field_type(c),
    {
        match c {
            'C' => Some(FieldType::Character),
            'Y' => Some(FieldType::Currency),
            'N' => Some(FieldType::Numeric),
            'F' => Some(FieldType::Float),
            'D' => Some(FieldType::Date),
            'T' => Some(FieldType::DateTime),
            'B' => Some(FieldType::Double),
            'I' => Some(FieldType::Integer),
            'L' => Some(FieldType::Logical),
            'M' => Some(FieldType::Memo),
            'G' => Some(FieldType::General),
            _ => None,
        }
    }

    /// As `from`, but an unrecognized character is an error carrying that
    /// character, never a silent default.
    pub fn try_from(c: char) -> (r: Result<FieldType, Error>)
        ensures
            match spec_field_type(c) {
                Some(t) => r == Result::<FieldType, Error>::Ok(t),
                None => r == Result::<FieldType, Error>::Err(Error::InvalidFieldType(c)),
            },
    {
        match Self::from(c) {
            Some(t) => Ok(t),
            None => Err(Error::InvalidFieldType(c)),
        }
    }
}

/// The unsigned 16-bit value stored little-endian at byte offset `i`.
pub open spec fn spec_le16(b: Seq<u8>, i: int) -> u16 {
    (b[i] + b[i + 1] * 0x100) as u16
}

/// The unsigned 32-bit value stored little-endian at byte offset `i`.
pub open spec fn spec_le32(b: Seq<u8>, i: int) -> u32 {
    (b[i] + b[i + 1] * 0x100 + b[i + 2] * 0x10000 + b[i + 3] * 0x1000000) as u32
}

fn read_le16(bytes: &[u8], pos: usize) -> (r: u16)
    requires
        pos + 2 <= bytes@.len(),
    ensures
        r == spec_le16(bytes@, pos as int),
{
    let b0 = bytes[pos] as u16;
    let b1 = bytes[pos + 1] as u16;
    b0 + b1 * 0x100
}

fn read_le32(bytes: &[u8], pos: usize) -> (r: u32)
    requires
        pos + 4 <= bytes@.len(),
    ensures
        r == spec_le32(bytes@, pos as int),
{
    let b0 = bytes[pos] as u32;
    let b1 = bytes[pos + 1] as u32;
    let b2 = bytes[pos + 2] as u32;
    let b3 = bytes[pos + 3] as u32;
    b0 + b1 * 0x100 + b2 * 0x10000 + b3 * 0x1000000
}

/// The attribute-file preamble: the three header fields this library
/// interprets; the remaining header bytes are reserved metadata that is
/// read and discarded.
#[derive(Debug, Clone, Copy, PartialEq, Eq, Structural)]
pub struct Header {
    /// Total number of data records declared in the file.
    pub num_records: u32,
    /// Byte offset from file start to the first data record.
    pub offset_to_first_record: u16,
    /// Declared byte length of one data record.
    pub size_of_record: u16,
}

/// The header whose fields are stored little-endian at their fixed byte
/// offsets: record count at [4..8), first-record offset at [8..10),
/// record size at [10..12); bytes [0..4) and [12..32) are reserved.
pub open spec fn spec_header(b: Seq<u8>) -> Header {
    Header {
        num_records: spec_le32(b, 4),
        offset_to_first_record: spec_le16(b, 8),
        size_of_record: spec_le16(b, 10),
    }
}

/// The number of field-descriptor slots a first-record offset declares:
/// the descriptor block fills the bytes between the header and the first
/// record, truncating division absorbing the one-byte terminator that
/// producers fold into the declared offset.
pub open spec fn spec_field_count(offset: u16) -> int {
    (offset - HEADER_SIZE) / (FIELD_DESCRIPTOR_SIZE as int)
}

impl Header {
    /// Decode the fixed-size header from the first `HEADER_SIZE` bytes of
    /// the attribute file; fewer bytes than that is a short read.
    pub fn read_from(bytes: &[u8]) -> (r: Result<Header, Error>)
        ensures
            bytes@.len() >= HEADER_SIZE ==> r == Result::<Header, Error>::Ok(
                spec_header(bytes@),
            ),
            bytes@.len() < HEADER_SIZE ==> r == Result::<Header, Error>::Err(Error::IoError),
    {
        if bytes.len() < HEADER_SIZE {
            return Err(Error::IoError);
        }
        let num_records = read_le32(bytes, 4);
        let offset_to_first_record = read_le16(bytes, 8);
        let size_of_record = read_le16(bytes, 10);
        Ok(
            Header {
                num_records,
                offset_to_first_record,
                size_of_record,
            },
        )
    }

    /// The number of field descriptors to decode, derived from the
    /// declared first-record offset. An offset smaller than the header
    /// size would make that number negative: such a header is malformed
    /// and is rejected rather than decoded.
    pub fn field_count(&self) -> (r: Result<usize, Error>)
        ensures
            self.offset_to_first_record >= HEADER_SIZE ==> r == Result::<usize, Error>::Ok(
                spec_field_count(self.offset_to_first_record) as usize,
            ),
            self.offset_to_first_record < HEADER_SIZE ==> r == Result::<usize, Error>::Err(
                Error::ArithmeticInconsistency(self.offset_to_first_record as i64),
            ),
    {
        if (self.offset_to_first_record as usize) < HEADER_SIZE {
            Err(Error::ArithmeticInconsistency(self.offset_to_first_record as i64))
        } else {
            Ok((self.offset_to_first_record as usize - HEADER_SIZE) / FIELD_DESCRIPTOR_SIZE)
        }
    }
}

/// The byte sequence with its trailing NUL padding removed; bytes other
/// than NUL, and NUL bytes that are not part of the trailing run, stay.
pub open spec fn strip_trailing_nuls(s: Seq<u8>) -> Seq<u8>
    decreases s.len(),
{
    if s.len() > 0 && s.last() == 0u8 {
        strip_trailing_nuls(s.drop_last())
    } else {
        s
    }
}

/// What best-effort UTF-8 decoding yields on a given byte sequence.
pub uninterp spec fn lossy_decode(bytes: Seq<u8>) -> Seq<char>;

/// Whether every byte of the sequence is ASCII.
pub open spec fn is_ascii_bytes(b: Seq<u8>) -> bool {
    forall|i: int| 0 <= i < b.len() ==> b[i] < 128
}

/// The characters that a sequence of ASCII bytes spells, byte for byte.
pub open spec fn ascii_chars_of(b: Seq<u8>) -> Seq<char> {
    b.map_values(|x: u8| x as char)
}

/// Relies on `String::from_utf8_lossy`: the result depends on the bytes
/// alone; invalid sequences are replaced, never rejected; and ASCII bytes
/// are valid UTF-8, each decoding to the character with the same code.
#[verifier::external_body]
fn utf8_lossy(bytes: &[u8]) -> (r: String)
    ensures
        r@ == lossy_decode(bytes@),
        is_ascii_bytes(bytes@) ==> r@ == ascii_chars_of(bytes@),
{
    String::from_utf8_lossy(bytes).into_owned()
}

/// One attribute column's schema, decoded from one descriptor slot.
#[derive(Debug)]
pub struct RecordFieldInfo {
    /// The name of the field, decoded best-effort from the fixed-width
    /// name bytes with the trailing NUL padding stripped.
    pub name: String,
    /// The field type.
    pub field_type: FieldType,
    /// Byte width of this field's value within a data record.
    pub record_length: u8,
    /// Number of decimal places for numeric-like types.
    pub num_decimal_places: u8,
}

/// Whether `info` is the decoding of the descriptor slot whose first byte
/// stands at offset `pos` of `b`: name bytes at [0..11) of the slot,
/// NUL-stripped then decoded best-effort; type character at byte 11;
/// value width at byte 16; decimal count at byte 17. Bytes [12..16) and
/// [18..32) of the slot are reserved and never interpreted.
pub open spec fn spec_descriptor_matches(b: Seq<u8>, pos: int, info: RecordFieldInfo) -> bool {
    &&& info.name@ == lossy_decode(
        strip_trailing_nuls(b.subrange(pos, pos + FIELD_NAME_SIZE as int)),
    )
    &&& is_ascii_bytes(strip_trailing_nuls(b.subrange(pos, pos + FIELD_NAME_SIZE as int)))
        ==> info.name@ == ascii_chars_of(
        strip_trailing_nuls(b.subrange(pos, pos + FIELD_NAME_SIZE as int)),
    )
    &&& Some(info.field_type) == spec_field_type(b[pos + 11] as char)
    &&& info.record_length == b[pos + 16]
    &&& info.num_decimal_places == b[pos + 17]
}

impl RecordFieldInfo {
    /// Decode the descriptor slot that starts at byte `pos`, consuming
    /// exactly `FIELD_DESCRIPTOR_SIZE` bytes. A slot that does not fit in
    /// the input is a short read; an unrecognized type character is an
    /// invalid-field-type error. No partial descriptor is returned.
    pub fn read_from(bytes: &[u8], pos: usize) -> (r: Result<(RecordFieldInfo, usize), Error>)
        ensures
            pos + FIELD_DESCRIPTOR_SIZE > bytes@.len() ==> r == Result::<
                (RecordFieldInfo, usize),
                Error,
            >::Err(Error::IoError),
            pos + FIELD_DESCRIPTOR_SIZE <= bytes@.len() && spec_field_type(
                bytes@[pos + 11] as char,
            ) is None ==> r == Result::<(RecordFieldInfo, usize), Error>::Err(
                Error::InvalidFieldType(bytes@[pos + 11] as char),
            ),
            pos + FIELD_DESCRIPTOR_SIZE <= bytes@.len() && spec_field_type(
                bytes@[pos + 11] as char,
            ) is Some ==> (match r {
                Ok((info, end)) => spec_descriptor_matches(bytes@, pos as int, info) && end == pos
                    + FIELD_DESCRIPTOR_SIZE,
                Err(_) => false,
            }),
    {
        if bytes.len() < FIELD_DESCRIPTOR_SIZE || pos > bytes.len() - FIELD_DESCRIPTOR_SIZE {
            return Err(Error::IoError);
        }
        let ghost full_name = bytes@.subrange(pos as int, pos as int + FIELD_NAME_SIZE as int);
        let mut end: usize = FIELD_NAME_SIZE;
        while end > 0 && bytes[pos + end - 1] == 0
            invariant
                end <= FIELD_NAME_SIZE,
                pos + FIELD_DESCRIPTOR_SIZE <= bytes@.len() <= usize::MAX,
                full_name == bytes@.subrange(pos as int, pos as int + FIELD_NAME_SIZE as int),
                strip_trailing_nuls(full_name) == strip_trailing_nuls(
                    bytes@.subrange(pos as int, pos as int + end as int),
                ),
            decreases end,
        {
            proof {
                let s = bytes@.subrange(pos as int, pos as int + end as int);
                assert(s.last() == 0u8);
                assert(s.drop_last() =~= bytes@.subrange(pos as int, pos as int + end - 1));
            }
            end = end - 1;
        }
        proof {
            let s = bytes@.subrange(pos as int, pos as int + end as int);
            assert(strip_trailing_nuls(s) == s);
        }
        let name_slice = slice_subrange(bytes, pos, pos + end);
        let name = utf8_lossy(name_slice);
        let type_byte = bytes[pos + 11];
        let field_type = match FieldType::try_from(type_byte as char) {
            Ok(t) => t,
            Err(e) => {
                return Err(e);
            },
        };
        let record_length = bytes[pos + 16];
        let num_decimal_places = bytes[pos + 17];
        Ok(
            (
                RecordFieldInfo {
                    name,
                    field_type,
                    record_length,
                    num_decimal_places,
                },
                pos + FIELD_DESCRIPTOR_SIZE,
            ),
        )
    }
}

/// The outcome of decoding `n` consecutive descriptor slots of `b`
/// starting at byte `pos`: success, or the first error met — a slot that
/// does not fit is a short read, a slot whose type character is outside
/// the recognized set is an invalid field type.
pub open spec fn spec_decode_status(b: Seq<u8>, pos: int, n: nat) -> Result<(), Error>
    decreases n,
{
    if n == 0 {
        Ok(())
    } else if pos + FIELD_DESCRIPTOR_SIZE > b.len() {
        Err(Error::IoError)
    } else if spec_field_type(b[pos + 11] as char) is None {
        Err(Error::InvalidFieldType(b[pos + 11] as char))
    } else {
        spec_decode_status(b, pos + FIELD_DESCRIPTOR_SIZE, (n - 1) as nat)
    }
}

/// Decode the attribute file's header and then every field-descriptor
/// slot the header declares, in on-disk order.
///
/// The number of slots is derived from the declared first-record offset;
/// decoding stops at the first error and returns it: a short input is a
/// short read, an offset smaller than the header size is an arithmetic
/// inconsistency, an unrecognized type character is an invalid field
/// type.
pub fn read_dbf_fields(bytes: &[u8]) -> (r: Result<Vec<RecordFieldInfo>, Error>)
    ensures
        bytes@.len() < HEADER_SIZE ==> r == Result::<Vec<RecordFieldInfo>, Error>::Err(
            Error::IoError,
        ),
        bytes@.len() >= HEADER_SIZE && spec_header(bytes@).offset_to_first_record < HEADER_SIZE
            ==> r == Result::<Vec<RecordFieldInfo>, Error>::Err(
            Error::ArithmeticInconsistency(spec_header(bytes@).offset_to_first_record as i64),
        ),
        bytes@.len() >= HEADER_SIZE && spec_header(bytes@).offset_to_first_record >= HEADER_SIZE
            ==> ({
            let k = spec_field_count(spec_header(bytes@).offset_to_first_record);
            match spec_decode_status(bytes@, HEADER_SIZE as int, k as nat) {
                Ok(_) => match r {
                    Ok(fields) => fields@.len() == k && forall|j: int|
                        0 <= j < k ==> spec_descriptor_matches(
                            bytes@,
                            HEADER_SIZE + j * FIELD_DESCRIPTOR_SIZE,
                            #[trigger] fields@[j],
                        ),
                    Err(_) => false,
                },
                Err(e) => r == Result::<Vec<RecordFieldInfo>, Error>::Err(e),
            }
        }),
{
    let header = match Header::read_from(bytes) {
        Ok(h) => h,
        Err(e) => {
            return Err(e);
        },
    };
    let num_fields = match header.field_count() {
        Ok(n) => n,
        Err(e) => {
            return Err(e);
        },
    };
    let mut fields_info: Vec<RecordFieldInfo> = Vec::new();
    let mut pos: usize = HEADER_SIZE;
    let mut i: usize = 0;
    while i < num_fields
        invariant
            i <= num_fields,
            bytes@.len() >= HEADER_SIZE,
            header == spec_header(bytes@),
            header.offset_to_first_record >= HEADER_SIZE,
            num_fields == spec_field_count(header.offset_to_first_record),
            pos == HEADER_SIZE + i * FIELD_DESCRIPTOR_SIZE,
            fields_info@.len() == i,
            forall|j: int|
                0 <= j < i ==> spec_descriptor_matches(
                    bytes@,
                    HEADER_SIZE + j * FIELD_DESCRIPTOR_SIZE,
                    #[trigger] fields_info@[j],
                ),
            spec_decode_status(bytes@, HEADER_SIZE as int, num_fields as nat)
                == spec_decode_status(bytes@, pos as int, (num_fields - i) as nat),
        decreases num_fields - i,
    {
        let (info, new_pos) = match RecordFieldInfo::read_from(bytes, pos) {
            Ok(p) => p,
            Err(e) => {
                return Err(e);
            },
        };
        fields_info.push(info);
        pos = new_pos;
        i = i + 1;
    }
    Ok(fields_info)
}

/// The sequence of `n` NUL bytes, as used to pad a name field to its
/// fixed width.
pub open spec fn nul_padding(n: nat) -> Seq<u8> {
    Seq::new(n, |i: int| 0u8)
}

/// Appending NUL padding does not change what stripping yields.
pub proof fn lemma_strip_trailing_nuls_pad(s: Seq<u8>, n: nat)
    ensures
        strip_trailing_nuls(s + nul_padding(n)) == strip_trailing_nuls(s),
    decreases n,
{
    if n == 0 {
        assert(s + nul_padding(0) =~= s);
    } else {
        let t = s + nul_padding(n);
        assert(t.last() == 0u8);
        assert(t.drop_last() =~= s + nul_padding((n - 1) as nat));
        lemma_strip_trailing_nuls_pad(s, (n - 1) as nat);
    }
}

/// Stripping trailing NUL padding is idempotent.
pub proof fn lemma_strip_trailing_nuls_idempotent(s: Seq<u8>)
    ensures
        strip_trailing_nuls(strip_trailing_nuls(s)) == strip_trailing_nuls(s),
    decreases s.len(),
{
    if s.len() > 0 && s.last() == 0u8 {
        lemma_strip_trailing_nuls_idempotent(s.drop_last());
    }
}

/// Name trimming idempotence: a name field decoded once, re-padded with
/// NUL bytes to any width and decoded again yields the same name.
pub proof fn lemma_name_pad_strip_round_trip(s: Seq<u8>, n: nat)
    ensures
        lossy_decode(strip_trailing_nuls(strip_trailing_nuls(s) + nul_padding(n)))
            == lossy_decode(strip_trailing_nuls(s)),
{
    lemma_strip_trailing_nuls_pad(strip_trailing_nuls(s), n);
    lemma_strip_trailing_nuls_idempotent(s);
}

/// Round-trip offset law: a header whose first-record offset is exactly
/// the header size plus `k` descriptor slots declares a field count of
/// exactly `k`, so decoding those slots, each consuming exactly one
/// slot's bytes, ends exactly at the declared offset.
pub proof fn lemma_round_trip_offset(k: nat)
    requires
        HEADER_SIZE + k * FIELD_DESCRIPTOR_SIZE <= u16::MAX,
    ensures
        spec_field_count((HEADER_SIZE + k * FIELD_DESCRIPTOR_SIZE) as u16) == k,
        HEADER_SIZE + spec_field_count((HEADER_SIZE + k * FIELD_DESCRIPTOR_SIZE) as u16)
            * FIELD_DESCRIPTOR_SIZE == HEADER_SIZE + k * FIELD_DESCRIPTOR_SIZE,
{
    assert((k * (FIELD_DESCRIPTOR_SIZE as int)) % (FIELD_DESCRIPTOR_SIZE as int) == 0
        && (k * (FIELD_DESCRIPTOR_SIZE as int)) / (FIELD_DESCRIPTOR_SIZE as int) == k)
        by (nonlinear_arith);
}

} // verus!
