//! Job identifiers: 128-bit values with their canonical hexadecimal string
//! forms.

use vstd::prelude::*;
use vstd::string::StringExecFns;

use crate::numfmt::{hex_pad_spec, push_hex_pad};

verus! {

/// A 128-bit job identifier.
#[derive(Clone, Copy, Debug, PartialEq, Eq, Hash, Structural)]
pub struct JobId {
    pub value: u128,
}

/// The 32-digit lower-case hexadecimal form.
pub open spec fn spec_simple(id: u128) -> Seq<char> {
    hex_pad_spec(id as nat, 32)
}

/// The hyphenated form: the 32 hex digits split 8-4-4-4-12.
pub open spec fn spec_hyphenated(id: u128) -> Seq<char> {
    hex_pad_spec((id as nat) / 0x1000000000000000000000000, 8) + seq!['-'] + hex_pad_spec(
        ((id as nat) / 0x100000000000000000000) % 0x10000,
        4,
    ) + seq!['-'] + hex_pad_spec(((id as nat) / 0x10000000000000000) % 0x10000, 4) + seq!['-']
        + hex_pad_spec(((id as nat) / 0x1000000000000) % 0x10000, 4) + seq!['-'] + hex_pad_spec(
        (id as nat) % 0x1000000000000,
        12,
    )
}

impl JobId {
    pub fn new(value: u128) -> (r: JobId)
        ensures
            r.value == value,
    {
        JobId { value }
    }

    /// The 32-digit hexadecimal form, as used for temporary file names.
    pub fn simple(&self) -> (s: String)
        ensures
            s@ == spec_simple(self.value),
    {
        let mut s = String::new();
        push_hex_pad(&mut s, self.value, 32);
        proof {
            assert(s@ =~= spec_simple(self.value));
        }
        s
    }

    /// The hyphenated form, as used for per-job directories.
    pub fn hyphenated(&self) -> (s: String)
        ensures
            s@ == spec_hyphenated(self.value),
    {
        let mut s = String::new();
        push_hex_pad(&mut s, self.value / 0x1000000000000000000000000, 8);
        s.append("-");
        push_hex_pad(&mut s, (self.value / 0x100000000000000000000) % 0x10000, 4);
        s.append("-");
        push_hex_pad(&mut s, (self.value / 0x10000000000000000) % 0x10000, 4);
        s.append("-");
        push_hex_pad(&mut s, (self.value / 0x1000000000000) % 0x10000, 4);
        s.append("-");
        push_hex_pad(&mut s, self.value % 0x1000000000000, 12);
        proof {
            reveal_strlit("-");
            assert(s@ =~= spec_hyphenated(self.value));
        }
        s
    }
}

} // verus!
