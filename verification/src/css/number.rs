//! How the printer writes a number that has been formatted as text.

use vstd::prelude::*;
use crate::css::printer::Printer;

verus! {

/// Whether `s` starts with `prefix`.
pub open spec fn starts_with_bytes(s: Seq<u8>, prefix: Seq<u8>) -> bool {
    prefix.len() <= s.len() && s.subrange(0, prefix.len() as int) == prefix
}

/// The text of a number as the printer writes it: when minifying, the zero
/// before the decimal point is left out (`0.5` as `.5`, `-0.5` as `-.5`);
/// otherwise the text is written as it is.
pub open spec fn number_text(text: Seq<u8>, minify: bool) -> Seq<u8> {
    if minify && starts_with_bytes(text, seq![48u8, 46u8]) {
        text.drop_first()
    } else if minify && starts_with_bytes(text, seq![45u8, 48u8, 46u8]) {
        seq![45u8] + text.subrange(2, text.len() as int)
    } else {
        text
    }
}

/// Writes a number given as its decimal text.
pub fn write_number_text(dest: &mut Printer, text: &[u8])
    ensures
        final(dest)@ == old(dest)@.write(number_text(text@, old(dest).minify)),
{
    let n = text.len();
    if dest.minify && n >= 2 && text[0] == 48u8 && text[1] == 46u8 {
        proof {
            assert(text@.subrange(0, 2) =~= seq![48u8, 46u8]);
        }
        dest.write_bytes(&text[1..n]);
        proof {
            assert(text@.subrange(1, n as int) =~= text@.drop_first());
        }
    } else if dest.minify && n >= 3 && text[0] == 45u8 && text[1] == 48u8 && text[2] == 46u8 {
        proof {
            assert(text@.subrange(0, 2) != seq![48u8, 46u8]) by {
                assert(text@.subrange(0, 2)[0] == 45u8);
            }
            assert(text@.subrange(0, 3) =~= seq![45u8, 48u8, 46u8]);
        }
        let ghost start = dest@;
        dest.write_char(45u8);
        dest.write_bytes(&text[2..n]);
        proof {
            assert(dest@.out =~= start.out + (seq![45u8] + text@.subrange(2, n as int)));
        }
    } else {
        proof {
            if dest.minify && starts_with_bytes(text@, seq![48u8, 46u8]) {
                assert(text@.subrange(0, 2)[0] == text@[0]);
                assert(text@.subrange(0, 2)[1] == text@[1]);
            }
            if dest.minify && starts_with_bytes(text@, seq![45u8, 48u8, 46u8]) {
                assert(text@.subrange(0, 3)[0] == text@[0]);
                assert(text@.subrange(0, 3)[1] == text@[1]);
                assert(text@.subrange(0, 3)[2] == text@[2]);
            }
        }
        dest.write_bytes(text);
    }
}

} // verus!
