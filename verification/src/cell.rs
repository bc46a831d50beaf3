use vstd::prelude::*;
use vstd::string::StringExecFns;

verus! {

/// Mathematical model of one table cell: what a `CellValue` holds, with
/// unbounded integers, character sequences and byte sequences in place of
/// the executable payloads. Contracts speak of this model.
#[verifier::ext_equal]
pub enum CellData {
    Integer(int),
    Real(Seq<char>),
    Text(Seq<char>),
    Blob(Seq<u8>),
    Null,
}

/// One table cell's typed content: exactly one variant is active.
///
/// A floating value is carried as its decimal rendering (`Real`), produced
/// where the value enters the library: the verified core holds no floats,
/// and the viewer only ever displays such a value.
#[derive(Debug, Clone, PartialEq, Eq)]
pub enum CellValue {
    Integer(i64),
    Real(String),
    Text(String),
    Blob(Vec<u8>),
    Null,
}

impl View for CellValue {
    type V = CellData;

    open spec fn view(&self) -> CellData {
        match self {
            CellValue::Integer(i) => CellData::Integer(*i as int),
            CellValue::Real(t) => CellData::Real(t@),
            CellValue::Text(t) => CellData::Text(t@),
            CellValue::Blob(b) => CellData::Blob(b@),
            CellValue::Null => CellData::Null,
        }
    }
}

/// The decimal digit `d` as a character, for `0 <= d <= 9`.
pub open spec fn digit_char(d: int) -> char {
    if d == 0 {
        '0'
    } else if d == 1 {
        '1'
    } else if d == 2 {
        '2'
    } else if d == 3 {
        '3'
    } else if d == 4 {
        '4'
    } else if d == 5 {
        '5'
    } else if d == 6 {
        '6'
    } else if d == 7 {
        '7'
    } else if d == 8 {
        '8'
    } else {
        '9'
    }
}

/// The standard decimal rendering of a natural number: most significant
/// digit first, no leading zeros (except for zero itself).
pub open spec fn nat_text(n: nat) -> Seq<char>
    decreases n,
{
    if n < 10 {
        seq![digit_char(n as int)]
    } else {
        nat_text(n / 10) + seq![digit_char((n % 10) as int)]
    }
}

/// The standard decimal rendering of an integer: a minus sign for negative
/// values, then the digits of the magnitude.
pub open spec fn int_text(i: int) -> Seq<char> {
    if i < 0 {
        seq!['-'] + nat_text((-i) as nat)
    } else {
        nat_text(i as nat)
    }
}

/// The sentinel shown for a blob: an opaque placeholder, never raw bytes.
pub open spec fn blob_text() -> Seq<char> {
    seq!['B', 'L', 'O', 'B']
}

/// The sentinel shown for an absent value.
pub open spec fn null_text() -> Seq<char> {
    seq!['N', 'U', 'L', 'L']
}

/// What `format_cell` returns for each kind of cell. Formatting is total:
/// every variant has a rendering and no input is rejected.
pub open spec fn spec_format_cell(c: CellData) -> Seq<char> {
    match c {
        CellData::Integer(i) => int_text(i),
        CellData::Real(t) => t,
        CellData::Text(t) => t,
        CellData::Blob(_) => blob_text(),
        CellData::Null => null_text(),
    }
}

fn digit_str(d: u64) -> (r: &'static str)
    requires
        d < 10,
    ensures
        r@ == seq![digit_char(d as int)],
{
    let r: &'static str = if d == 0 {
        "0"
    } else if d == 1 {
        "1"
    } else if d == 2 {
        "2"
    } else if d == 3 {
        "3"
    } else if d == 4 {
        "4"
    } else if d == 5 {
        "5"
    } else if d == 6 {
        "6"
    } else if d == 7 {
        "7"
    } else if d == 8 {
        "8"
    } else {
        "9"
    };
    proof {
        reveal_strlit("0");
        reveal_strlit("1");
        reveal_strlit("2");
        reveal_strlit("3");
        reveal_strlit("4");
        reveal_strlit("5");
        reveal_strlit("6");
        reveal_strlit("7");
        reveal_strlit("8");
        reveal_strlit("9");
        assert(r@ =~= seq![digit_char(d as int)]);
    }
    r
}

fn nat_to_text(n: u64) -> (r: String)
    ensures
        r@ == nat_text(n as nat),
    decreases n,
{
    if n < 10 {
        String::from_str(digit_str(n))
    } else {
        let high = nat_to_text(n / 10);
        high.concat(digit_str(n % 10))
    }
}

/// The decimal rendering of a signed 64-bit integer.
pub fn format_i64(i: i64) -> (r: String)
    ensures
        r@ == int_text(i as int),
{
    if i >= 0 {
        nat_to_text(i as u64)
    } else {
        let mag: u64 = (-(i as i128)) as u64;
        assert(mag as int == -(i as int));
        let sign = String::from_str("-");
        proof {
            reveal_strlit("-");
            assert(sign@ =~= seq!['-']);
        }
        let digits = nat_to_text(mag);
        sign.concat(digits.as_str())
    }
}

/// Renders one cell for display. Integer and Real cells show their decimal
/// form, Text shows its characters verbatim, Blob and Null show fixed
/// sentinels; a blob's bytes are never shown.
pub fn format_cell(c: &CellValue) -> (r: String)
    ensures
        r@ == spec_format_cell(c@),
{
    match c {
        CellValue::Integer(i) => format_i64(*i),
        CellValue::Real(t) => t.clone(),
        CellValue::Text(t) => t.clone(),
        CellValue::Blob(_) => {
            let r = String::from_str("BLOB");
            proof {
                reveal_strlit("BLOB");
                assert(r@ =~= blob_text());
            }
            r
        },
        CellValue::Null => {
            let r = String::from_str("NULL");
            proof {
                reveal_strlit("NULL");
                assert(r@ =~= null_text());
            }
            r
        },
    }
}

} // verus!
