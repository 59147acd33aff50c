//! Build targets and the hashbang line that selects one.

use vstd::prelude::*;

verus! {

/// The platform that a bundle is built for.
#[derive(Clone, Copy, Debug, PartialEq, Eq, Structural)]
pub enum Target {
    Browser,
    Bun,
    BunMacro,
    Node,
    /// The server-side-rendering graph of server components.
    BakeServerComponentsSsr,
}

/// `#!/usr/bin/env bun` as bytes.
pub open spec fn bun_hashbang() -> Seq<u8> {
    seq![35u8, 33u8, 47u8, 117u8, 115u8, 114u8, 47u8, 98u8, 105u8, 110u8, 47u8, 101u8, 110u8, 118u8, 32u8, 98u8, 117u8, 110u8]
}

/// The target that a file's hashbang line asks for: Bun when the file starts
/// with `#!/usr/bin/env bun` followed by a line break or a space.
pub open spec fn spec_target_from_hashbang(buffer: Seq<u8>) -> Option<Target> {
    let hb = bun_hashbang();
    if buffer.len() > hb.len() && buffer.subrange(0, hb.len() as int) == hb && (buffer[hb.len() as int] == 10u8
        || buffer[hb.len() as int] == 32u8) {
        Some(Target::Bun)
    } else {
        None
    }
}

/// Reads the target from the hashbang line at the start of `buffer`.
pub fn target_from_hashbang(buffer: &[u8]) -> (r: Option<Target>)
    ensures
        r == spec_target_from_hashbang(buffer@),
{
    let hb: [u8; 18] = [
        35u8, 33u8, 47u8, 117u8, 115u8, 114u8, 47u8, 98u8, 105u8, 110u8, 47u8, 101u8, 110u8, 118u8, 32u8, 98u8,
        117u8, 110u8,
    ];
    assert(hb@ =~= bun_hashbang());
    if buffer.len() > 18 && starts_with(buffer, hb.as_slice()) {
        let next = buffer[18];
        if next == 10u8 || next == 32u8 {
            return Some(Target::Bun);
        }
    }
    None
}

/// Whether `buffer` starts with `prefix`.
pub fn starts_with(buffer: &[u8], prefix: &[u8]) -> (r: bool)
    ensures
        r == (prefix@.len() <= buffer@.len() && buffer@.subrange(0, prefix@.len() as int) == prefix@),
{
    if prefix.len() > buffer.len() {
        return false;
    }
    let mut i: usize = 0;
    while i < prefix.len()
        invariant
            prefix@.len() <= buffer@.len(),
            i <= prefix@.len(),
            forall|j: int| 0 <= j < i ==> buffer@[j] == prefix@[j],
        decreases prefix@.len() - i,
    {
        if buffer[i] != prefix[i] {
            assert(buffer@.subrange(0, prefix@.len() as int)[i as int] != prefix@[i as int]);
            return false;
        }
        i = i + 1;
    }
    assert(buffer@.subrange(0, prefix@.len() as int) =~= prefix@);
    true
}

} // verus!
