use vstd::prelude::*;

verus! {

/// The biased exponent field of an IEEE-754 double given by its bit pattern.
pub open spec fn exponent_bits(bits: u64) -> u64 {
    (bits >> 52u64) & 0x7ffu64
}

/// The fraction field of an IEEE-754 double given by its bit pattern.
pub open spec fn fraction_bits(bits: u64) -> u64 {
    bits & 0xf_ffff_ffff_ffffu64
}

/// A double is finite unless its exponent field is all ones.
pub open spec fn is_finite_bits(bits: u64) -> bool {
    exponent_bits(bits) != 0x7ffu64
}

/// A double is NaN when its exponent field is all ones and its fraction is not zero.
pub open spec fn is_nan_bits(bits: u64) -> bool {
    exponent_bits(bits) == 0x7ffu64 && fraction_bits(bits) != 0
}

/// What `String::from_utf8_lossy` makes of a byte sequence.
pub uninterp spec fn utf8_lossy(bytes: Seq<u8>) -> Seq<char>;

/// A cell as the engine reports it, by its native storage class.
/// A floating-point cell is held as the bit pattern of its IEEE-754 double.
pub enum Cell {
    Null,
    Integer(i64),
    Real(u64),
    Text(Vec<u8>),
    Blob(Vec<u8>),
}

/// A column value in the transport-neutral model. `Float` holds the bit
/// pattern of a finite IEEE-754 double; `BlobPlaceholder` stands for any
/// binary content, which is never surfaced.
#[derive(Debug, PartialEq)]
pub enum Value {
    Null,
    Integer(i64),
    Float(u64),
    Text(String),
    BlobPlaceholder,
}

/// The mathematical counterpart of [`Value`], with text as a sequence of characters.
pub enum ValueModel {
    Null,
    Integer(i64),
    Float(u64),
    Text(Seq<char>),
    BlobPlaceholder,
}

impl View for Value {
    type V = ValueModel;

    open spec fn view(&self) -> ValueModel {
        match self {
            Value::Null => ValueModel::Null,
            Value::Integer(i) => ValueModel::Integer(*i),
            Value::Float(b) => ValueModel::Float(*b),
            Value::Text(s) => ValueModel::Text(s@),
            Value::BlobPlaceholder => ValueModel::BlobPlaceholder,
        }
    }
}

/// The text that stands for binary content on the wire.
pub open spec fn blob_placeholder_text() -> Seq<char> {
    seq!['<', 'B', 'L', 'O', 'B', '>']
}

/// The coercion rules, in priority order of the cell's native type.
pub open spec fn coerced(c: Cell) -> ValueModel {
    match c {
        Cell::Null => ValueModel::Null,
        Cell::Integer(i) => ValueModel::Integer(i),
        Cell::Real(b) => if is_finite_bits(b) {
            ValueModel::Float(b)
        } else {
            ValueModel::Null
        },
        Cell::Text(bytes) => ValueModel::Text(utf8_lossy(bytes@)),
        Cell::Blob(_) => ValueModel::BlobPlaceholder,
    }
}

/// A value that may cross the boundary: no non-finite number in it.
pub open spec fn is_wire_safe(v: ValueModel) -> bool {
    v is Float ==> is_finite_bits(v->Float_0)
}

/// The characters of ASCII bytes, one per byte.
pub open spec fn ascii_chars(bytes: Seq<u8>) -> Seq<char> {
    bytes.map_values(|b: u8| b as char)
}

/// Every byte is ASCII.
pub open spec fn all_ascii(bytes: Seq<u8>) -> bool {
    forall|i: int| 0 <= i < bytes.len() ==> bytes[i] < 128
}

/// Relies on `String::from_utf8_lossy`: the text is a function of the bytes
/// alone, and valid UTF-8 such as ASCII comes back unchanged.
#[verifier::external_body]
fn decode_lossy(bytes: &[u8]) -> (r: String)
    ensures
        r@ == utf8_lossy(bytes@),
        all_ascii(bytes@) ==> r@ == ascii_chars(bytes@),
{
    String::from_utf8_lossy(bytes).into_owned()
}

/// Whether a double, given by its bit pattern, is finite.
pub fn float_is_finite(bits: u64) -> (r: bool)
    ensures
        r == is_finite_bits(bits),
{
    (bits >> 52u64) & 0x7ffu64 != 0x7ffu64
}

/// Coerces one engine cell into the value model.
pub fn coerce(c: &Cell) -> (r: Value)
    ensures
        r@ == coerced(*c),
        is_wire_safe(r@),
        c is Text && all_ascii(c->Text_0@) ==> r@ == ValueModel::Text(ascii_chars(c->Text_0@)),
{
    match c {
        Cell::Null => Value::Null,
        Cell::Integer(i) => Value::Integer(*i),
        Cell::Real(b) => if float_is_finite(*b) {
            Value::Float(*b)
        } else {
            Value::Null
        },
        Cell::Text(bytes) => Value::Text(decode_lossy(bytes.as_slice())),
        Cell::Blob(_) => Value::BlobPlaceholder,
    }
}

/// A NaN cell becomes `Null`: neither an error nor a numeric token.
pub proof fn lemma_nan_coerces_to_null(bits: u64)
    requires
        is_nan_bits(bits),
    ensures
        coerced(Cell::Real(bits)) == ValueModel::Null,
{
}

/// Every coerced cell may cross the boundary.
pub proof fn lemma_coerced_is_wire_safe(c: Cell)
    ensures
        is_wire_safe(coerced(c)),
{
}

impl Value {
    /// The text this value carries on the wire when it is a string: the text
    /// itself, or the placeholder for binary content.
    pub fn wire_text(&self) -> (r: Option<String>)
        ensures
            (r is Some) == (self is Text || self is BlobPlaceholder),
            self is Text ==> r->Some_0@ == self->Text_0@,
            self is BlobPlaceholder ==> r->Some_0@ == blob_placeholder_text(),
    {
        match self {
            Value::Text(s) => Some(s.clone()),
            Value::BlobPlaceholder => {
                let t = String::from_str("<BLOB>");
                proof {
                    reveal_strlit("<BLOB>");
                }
                Some(t)
            },
            _ => None,
        }
    }
}

} // verus!
