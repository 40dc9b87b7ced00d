//! Document identifiers: twelve raw bytes, written as 24 hexadecimal digits.
use vstd::prelude::*;

verus! {

/// Is `c` one of `0-9`, `a-f` or `A-F`?
pub open spec fn is_hex_digit(c: char) -> bool {
    let u = c as u32;
    (48 <= u && u <= 57) || (97 <= u && u <= 102) || (65 <= u && u <= 70)
}

/// The value of a hexadecimal digit, in either case.
pub open spec fn hex_value(c: char) -> int {
    let u = c as u32;
    if u <= 57 {
        u - 48
    } else if u >= 97 {
        u - 87
    } else {
        u - 55
    }
}

/// Exactly 24 hexadecimal digits.
pub open spec fn is_id_text(s: Seq<char>) -> bool {
    &&& s.len() == 24
    &&& forall|i: int| 0 <= i < 24 ==> #[trigger] is_hex_digit(s[i])
}

/// The bytes that an id text spells: two digits per byte, high digit first.
pub open spec fn id_bytes_of(s: Seq<char>) -> Seq<u8> {
    Seq::new(12, |i: int| (16 * hex_value(s[2 * i]) + hex_value(s[2 * i + 1])) as u8)
}

/// The identifier that a text names, if it is a well-formed id text.
pub open spec fn parsed_key(s: Seq<char>) -> Option<Seq<u8>> {
    if is_id_text(s) {
        Some(id_bytes_of(s))
    } else {
        None
    }
}

/// The lower-case digit for a value below 16.
pub open spec fn lower_hex_digit(v: int) -> char {
    if v == 0 { '0' }
    else if v == 1 { '1' }
    else if v == 2 { '2' }
    else if v == 3 { '3' }
    else if v == 4 { '4' }
    else if v == 5 { '5' }
    else if v == 6 { '6' }
    else if v == 7 { '7' }
    else if v == 8 { '8' }
    else if v == 9 { '9' }
    else if v == 10 { 'a' }
    else if v == 11 { 'b' }
    else if v == 12 { 'c' }
    else if v == 13 { 'd' }
    else if v == 14 { 'e' }
    else { 'f' }
}

/// Bytes written as lower-case hexadecimal, two digits per byte, high digit first.
pub open spec fn hex_text_of(b: Seq<u8>) -> Seq<char> {
    Seq::new(
        2 * b.len(),
        |i: int|
            if i % 2 == 0 {
                lower_hex_digit(b[i / 2] as int / 16)
            } else {
                lower_hex_digit(b[i / 2] as int % 16)
            },
    )
}

/// The identifier of a stored document.
#[derive(Clone, Copy, Debug)]
pub struct WorkoutId {
    pub bytes: [u8; 12],
}

impl View for WorkoutId {
    type V = Seq<u8>;

    open spec fn view(&self) -> Seq<u8> {
        self.bytes@
    }
}

impl PartialEq for WorkoutId {
    fn eq(&self, other: &WorkoutId) -> (r: bool) {
        let mut i: usize = 0;
        while i < 12
            invariant
                0 <= i <= 12,
                forall|j: int| 0 <= j < i ==> self.bytes@[j] == other.bytes@[j],
            decreases 12 - i,
        {
            if self.bytes[i] != other.bytes[i] {
                return false;
            }
            i = i + 1;
        }
        assert(self.bytes@ =~= other.bytes@);
        true
    }
}

impl vstd::std_specs::cmp::PartialEqSpecImpl for WorkoutId {
    open spec fn obeys_eq_spec() -> bool {
        true
    }

    open spec fn eq_spec(&self, other: &WorkoutId) -> bool {
        self@ == other@
    }
}

impl Eq for WorkoutId {}

/// Relies on bson's `ObjectId::parse_str`: it hex-decodes the text (digits of
/// either case, two per byte, high digit first) and accepts exactly twelve
/// bytes; any other text is an error.
#[verifier::external_body]
fn parse_object_id(s: &str) -> (r: Option<WorkoutId>)
    ensures
        match r {
            Some(id) => parsed_key(s@) == Some(id@),
            None => parsed_key(s@) is None,
        },
{
    match mongodb::bson::oid::ObjectId::parse_str(s) {
        Ok(oid) => Some(WorkoutId { bytes: oid.bytes() }),
        Err(_) => None,
    }
}

/// Relies on bson's `ObjectId::to_hex`, which is `hex::encode` of the twelve
/// bytes: lower-case digits, two per byte, high digit first.
#[verifier::external_body]
fn object_id_hex(id: &WorkoutId) -> (r: String)
    ensures
        r@ == hex_text_of(id@),
{
    mongodb::bson::oid::ObjectId::from_bytes(id.bytes).to_hex()
}

/// Relies on bson's `ObjectId::new`, which draws an id from the clock, a
/// per-process random value and a counter; nothing is known of the value.
#[verifier::external_body]
fn new_object_id() -> (r: WorkoutId) {
    WorkoutId { bytes: mongodb::bson::oid::ObjectId::new().bytes() }
}

impl WorkoutId {
    /// Reads an id from its text form; `None` unless the text is exactly 24
    /// hexadecimal digits.
    pub fn parse(s: &str) -> (r: Option<WorkoutId>)
        ensures
            match r {
                Some(id) => parsed_key(s@) == Some(id@),
                None => parsed_key(s@) is None,
            },
    {
        parse_object_id(s)
    }

    /// The id as 24 lower-case hexadecimal digits.
    pub fn to_hex(&self) -> (r: String)
        ensures
            r@ == hex_text_of(self@),
            r@.len() == 24,
    {
        object_id_hex(self)
    }

    /// A new id from the clock and a random source.
    pub fn generate() -> (r: WorkoutId) {
        new_object_id()
    }
}

/// Each lower-case digit is a hexadecimal digit that reads back as its value.
pub proof fn lemma_lower_hex_digit(v: int)
    requires
        0 <= v < 16,
    ensures
        is_hex_digit(lower_hex_digit(v)),
        hex_value(lower_hex_digit(v)) == v,
{
}

/// The text form of an id is a well-formed id text, and reading it back
/// gives the same id.
pub proof fn lemma_id_text_round_trip(id: WorkoutId)
    ensures
        is_id_text(hex_text_of(id@)),
        parsed_key(hex_text_of(id@)) == Some(id@),
{
    let b = id@;
    let t = hex_text_of(b);
    assert(b.len() == 12);
    assert forall|i: int| 0 <= i < 24 implies #[trigger] is_hex_digit(t[i]) && hex_value(t[i]) == (
    if i % 2 == 0 {
        b[i / 2] as int / 16
    } else {
        b[i / 2] as int % 16
    }) by {
        let x = b[i / 2] as int;
        assert(0 <= x < 256);
        assert(0 <= x / 16 < 16);
        assert(0 <= x % 16 < 16);
        lemma_lower_hex_digit(x / 16);
        lemma_lower_hex_digit(x % 16);
    }
    assert forall|i: int| 0 <= i < 12 implies #[trigger] id_bytes_of(t)[i] == b[i] by {
        let x = b[i] as int;
        assert((2 * i) % 2 == 0 && (2 * i) / 2 == i);
        assert((2 * i + 1) % 2 == 1 && (2 * i + 1) / 2 == i);
        assert(hex_value(t[2 * i]) == x / 16);
        assert(hex_value(t[2 * i + 1]) == x % 16);
        assert(16 * (x / 16) + x % 16 == x);
    }
    assert(id_bytes_of(t) =~= b);
}

} // verus!
