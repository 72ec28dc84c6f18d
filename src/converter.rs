use vstd::prelude::*;
use vstd::utf8::*;
use crate::error::Error;

verus! {

/// The encoding names that the converter accepts.
pub open spec fn is_utf8_name(name: Seq<char>) -> bool {
    name == "UTF-8"@ || name == "UTF-8 BOM"@
}

/// Whether two strings hold the same text.
pub fn str_equals(a: &str, b: &str) -> (r: bool)
    ensures
        r == (a@ == b@),
{
    let x = a.as_bytes();
    let y = b.as_bytes();
    let mut same = x.len() == y.len();
    let mut i: usize = 0;
    assert(x@.subrange(0, 0) =~= y@.subrange(0, 0));
    while same && i < x.len()
        invariant
            same ==> x@.len() == y@.len(),
            i <= x@.len(),
            same == (x@.len() == y@.len() && x@.subrange(0, i as int) == y@.subrange(0, i as int)),
        decreases x@.len() - i,
    {
        if x[i] != y[i] {
            same = false;
            assert(x@.subrange(0, i + 1)[i as int] != y@.subrange(0, i + 1)[i as int]);
        } else {
            assert(x@.subrange(0, i + 1) =~= x@.subrange(0, i as int).push(x@[i as int]));
            assert(y@.subrange(0, i + 1) =~= y@.subrange(0, i as int).push(y@[i as int]));
        }
        i = i + 1;
    }
    proof {
        if same {
            assert(x@ =~= x@.subrange(0, x@.len() as int));
            assert(y@ =~= y@.subrange(0, y@.len() as int));
        }
        if a@ == b@ {
            assert(x@ == y@);
        }
        encode_utf8_decode_utf8(a@);
        encode_utf8_decode_utf8(b@);
    }
    same
}

fn is_utf8_encoding(name: &str) -> (r: bool)
    ensures
        r == is_utf8_name(name@),
{
    proof {
        reveal_strlit("UTF-8");
        reveal_strlit("UTF-8 BOM");
    }
    str_equals(name, "UTF-8") || str_equals(name, "UTF-8 BOM")
}

/// A converter between two encodings. Only UTF-8 and UTF-8 with BOM are
/// supported, so converting copies bytes unchanged.
pub struct Converter {}

impl Converter {
    /// Makes a converter from `source_encoding` to `target_encoding`. The
    /// pivot buffer is accepted for interface parity and left untouched.
    pub fn new(_pivot_buffer: &mut [u16], source_encoding: &str, target_encoding: &str) -> (r:
        Result<Converter, Error>)
        ensures
            r is Ok <==> is_utf8_name(source_encoding@) && is_utf8_name(target_encoding@),
            r is Err ==> r == Err::<Converter, Error>(Error::UnsupportedEncoding),
            final(_pivot_buffer)@ == old(_pivot_buffer)@,
    {
        if is_utf8_encoding(source_encoding) && is_utf8_encoding(target_encoding) {
            Ok(Converter {  })
        } else {
            Err(Error::UnsupportedEncoding)
        }
    }

    /// Copies as many bytes of `input` as fit into `output` and returns how
    /// many were consumed and produced (the same number). The rest of
    /// `output` is left as it was. Never fails.
    pub fn convert(&mut self, input: &[u8], output: &mut [u8]) -> (r: Result<(usize, usize), Error>)
        ensures
            ({
                let n = if input@.len() <= old(output)@.len() {
                    input@.len()
                } else {
                    old(output)@.len()
                };
                &&& r == Ok::<(usize, usize), Error>((n as usize, n as usize))
                &&& final(output)@ == input@.subrange(0, n as int) + old(output)@.subrange(
                    n as int,
                    old(output)@.len() as int,
                )
            }),
    {
        let len: usize = if input.len() <= output.len() {
            input.len()
        } else {
            output.len()
        };
        let mut i: usize = 0;
        while i < len
            invariant
                len <= input@.len(),
                len <= old(output)@.len(),
                i <= len,
                output@.len() == old(output)@.len(),
                forall|k: int| 0 <= k < i ==> output@[k] == input@[k],
                forall|k: int| i <= k < output@.len() ==> output@[k] == old(output)@[k],
            decreases len - i,
        {
            output[i] = input[i];
            i = i + 1;
        }
        assert(output@ =~= input@.subrange(0, len as int) + old(output)@.subrange(
            len as int,
            old(output)@.len() as int,
        ));
        Ok((len, len))
    }
}

} // verus!
