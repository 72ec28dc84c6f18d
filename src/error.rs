use vstd::prelude::*;
use vstd::string::*;

verus! {

/// The failures that the text services report.
#[derive(Clone, Copy, Debug, PartialEq, Eq, Structural)]
pub enum Error {
    /// A converter was asked for an encoding other than UTF-8 or UTF-8 with BOM.
    UnsupportedEncoding,
    /// A search pattern could not be compiled.
    InvalidPattern,
}

impl Error {
    /// The numeric code under which this error is shown to the user.
    pub open spec fn spec_code(self) -> u32 {
        match self {
            Error::UnsupportedEncoding => 16,
            Error::InvalidPattern => 1,
        }
    }

    pub fn code(&self) -> (r: u32)
        ensures
            r == self.spec_code(),
    {
        match self {
            Error::UnsupportedEncoding => 16,
            Error::InvalidPattern => 1,
        }
    }
}

/// Initialises the text services. Nothing needs to be set up, so this
/// always succeeds.
pub fn init() -> (r: Result<(), Error>)
    ensures
        r is Ok,
{
    Ok(())
}

/// The lowercase hexadecimal digit for a value below 16.
pub open spec fn hex_char(d: nat) -> char {
    if d < 10 {
        ('0' as nat + d) as char
    } else {
        ('a' as nat + d - 10) as char
    }
}

/// Hexadecimal digits of `n`, most significant first, without leading zeros.
pub open spec fn hex_digits(n: nat) -> Seq<char>
    decreases n,
{
    if n < 16 {
        seq![hex_char(n)]
    } else {
        hex_digits(n / 16) + seq![hex_char(n % 16)]
    }
}

/// The text shown for an error code: a fixed prefix, then `0x` and the
/// code in lowercase hexadecimal, zero-padded to at least six digits.
pub open spec fn error_text(code: u32) -> Seq<char> {
    let d = hex_digits(code as nat);
    let pad = if d.len() < 6 {
        Seq::new((6 - d.len()) as nat, |i: int| '0')
    } else {
        Seq::empty()
    };
    "ICU Error (Stub): 0x"@ + pad + d
}

fn hex_digit_text(d: u32) -> (r: &'static str)
    requires
        d < 16,
    ensures
        r@ == seq![hex_char(d as nat)],
{
    proof {
        reveal_strlit("0");
        reveal_strlit("1");
        reveal_strlit("2");
        reveal_strlit("3");
        reveal_strlit("4");
        reveal_strlit("5");
        reveal_strlit("6");
        reveal_strlit("7");
        reveal_strlit("8");
        reveal_strlit("9");
        reveal_strlit("a");
        reveal_strlit("b");
        reveal_strlit("c");
        reveal_strlit("d");
        reveal_strlit("e");
        reveal_strlit("f");
    }
    let r = match d {
        0 => "0",
        1 => "1",
        2 => "2",
        3 => "3",
        4 => "4",
        5 => "5",
        6 => "6",
        7 => "7",
        8 => "8",
        9 => "9",
        10 => "a",
        11 => "b",
        12 => "c",
        13 => "d",
        14 => "e",
        _ => "f",
    };
    assert(r@ =~= seq![hex_char(d as nat)]);
    r
}

/// Renders an error code for display, as `0x` followed by at least six
/// lowercase hexadecimal digits after a fixed prefix.
pub fn apperr_format(code: u32) -> (r: String)
    ensures
        r@ == error_text(code),
{
    let mut digits: Vec<u32> = Vec::new();
    let mut n: u32 = code;
    while n >= 16
        invariant
            hex_digits(code as nat) == hex_digits(n as nat) + digits@.map_values(
                |d: u32| hex_char(d as nat),
            ),
            forall|i: int| 0 <= i < digits@.len() ==> digits@[i] < 16,
        decreases n,
    {
        let d = n % 16;
        let ghost old_digits = digits@;
        digits.insert(0, d);
        n = n / 16;
        proof {
            assert(digits@.map_values(|d: u32| hex_char(d as nat)) =~= seq![hex_char(d as nat)]
                + old_digits.map_values(|d: u32| hex_char(d as nat)));
        }
    }
    let ghost old_digits = digits@;
    digits.insert(0, n);
    assert(digits@.map_values(|d: u32| hex_char(d as nat)) =~= seq![hex_char(n as nat)]
        + old_digits.map_values(|d: u32| hex_char(d as nat)));
    let ghost shown = hex_digits(code as nat);
    assert(shown == digits@.map_values(|d: u32| hex_char(d as nat)));
    proof {
        reveal_strlit("ICU Error (Stub): 0x");
        reveal_strlit("0");
    }
    let mut out = String::from_str("ICU Error (Stub): 0x");
    let dl: usize = digits.len();
    let mut pad: usize = dl;
    assert(out@ =~= "ICU Error (Stub): 0x"@ + Seq::new((pad - dl) as nat, |i: int| '0'));
    while pad < 6
        invariant
            dl == digits@.len(),
            dl <= pad,
            dl < 6 ==> pad <= 6,
            dl >= 6 ==> pad == dl,
            out@ == "ICU Error (Stub): 0x"@ + Seq::new((pad - dl) as nat, |i: int| '0'),
        decreases 6 - pad,
    {
        let ghost prev = out@;
        proof {
            reveal_strlit("0");
        }
        out.append("0");
        assert("0"@ =~= seq!['0']);
        assert(out@ == prev + seq!['0']);
        pad = pad + 1;
        assert(out@ =~= "ICU Error (Stub): 0x"@ + Seq::new((pad - dl) as nat, |i: int| '0'));
    }
    let ghost base = out@;
    let mut i: usize = 0;
    assert(out@ =~= base + digits@.map_values(|d: u32| hex_char(d as nat)).subrange(0, 0));
    while i < digits.len()
        invariant
            i <= digits@.len(),
            forall|k: int| 0 <= k < digits@.len() ==> digits@[k] < 16,
            out@ == base + digits@.map_values(|d: u32| hex_char(d as nat)).subrange(0, i as int),
        decreases digits@.len() - i,
    {
        out.append(hex_digit_text(digits[i]));
        i = i + 1;
        assert(out@ =~= base + digits@.map_values(|d: u32| hex_char(d as nat)).subrange(
            0,
            i as int,
        ));
    }
    assert(digits@.map_values(|d: u32| hex_char(d as nat)).subrange(0, i as int)
        =~= digits@.map_values(|d: u32| hex_char(d as nat)));
    proof {
        let m = digits@.map_values(|d: u32| hex_char(d as nat));
        assert(m == hex_digits(code as nat));
        if dl < 6 {
            assert(pad == 6);
            assert(out@ == "ICU Error (Stub): 0x"@ + Seq::new((6 - dl) as nat, |i: int| '0') + m);
        } else {
            assert(Seq::new((pad - dl) as nat, |i: int| '0') =~= Seq::<char>::empty());
            assert(out@ == "ICU Error (Stub): 0x"@ + Seq::<char>::empty() + m);
        }
    }
    out
}

} // verus!
