//! The rule for a source commit that a build attests.

use vstd::prelude::*;
use vstd::string::*;
use crate::text::{byte_len, chars_of, decimal, decimal_text, text_byte_len};

verus! {

/// The length of a full git object name.
pub const OBJECT_NAME_LEN: usize = 40;

pub open spec fn is_lower_hex(c: char) -> bool {
    ('0' <= c && c <= '9') || ('a' <= c && c <= 'f')
}

pub open spec fn dirty_mark() -> Seq<char> {
    seq!['-', 'd', 'i', 'r', 't', 'y']
}

pub open spec fn is_marked_dirty(value: Seq<char>) -> bool {
    dirty_mark().is_suffix_of(value)
}

/// A full lowercase object name: forty characters, each a lowercase hexadecimal digit.
pub open spec fn is_object_name(value: Seq<char>) -> bool {
    value.len() == OBJECT_NAME_LEN && forall|i: int|
        0 <= i < value.len() ==> is_lower_hex(#[trigger] value[i])
}

/// What is wrong with an attested commit, if anything is.
pub open spec fn sha_problem(value: Seq<char>) -> Option<Seq<char>> {
    if value.len() == 0 {
        Some("it is empty, so it names no commit"@)
    } else if is_marked_dirty(value) {
        Some(
            "it is marked -dirty, so the compiled tree was not commit "@ + value.take(
                value.len() - 6,
            ),
        )
    } else if byte_len(value) != OBJECT_NAME_LEN {
        Some(
            "it is "@ + decimal(byte_len(value))
                + " characters, not a full 40-character git object name"@,
        )
    } else if !is_object_name(value) {
        Some("it is not 40 lowercase hexadecimal characters"@)
    } else {
        None
    }
}

fn lower_hex(c: char) -> (r: bool)
    ensures
        r == is_lower_hex(c),
{
    ('0' <= c && c <= '9') || ('a' <= c && c <= 'f')
}

/// Why `value` cannot stand as the commit a build was made from, or `None` when it can.
pub fn attested_sha_problem(value: &str) -> (r: Option<String>)
    ensures
        match r {
            Some(problem) => sha_problem(value@) == Some(problem@),
            None => sha_problem(value@) is None,
        },
{
    if value.is_empty() {
        return Some("it is empty, so it names no commit".to_owned());
    }
    let v = chars_of(value);
    let n: usize = v.len();
    if n >= 6 && v[n - 6] == '-' && v[n - 5] == 'd' && v[n - 4] == 'i' && v[n - 3] == 'r' && v[n
        - 2] == 't' && v[n - 1] == 'y' {
        let commit = value.substring_char(0, n - 6);
        let mut problem = "it is marked -dirty, so the compiled tree was not commit ".to_owned();
        problem.append(commit);
        proof {
            assert(value@.subrange(n - 6, n as int) =~= dirty_mark());
            assert(value@.subrange(0, n - 6) =~= value@.take(n - 6));
        }
        return Some(problem);
    }
    proof {
        if is_marked_dirty(value@) {
            let tail = value@.subrange(n - 6, n as int);
            assert(tail == dirty_mark());
            assert(tail[0] == v@[n - 6] && tail[1] == v@[n - 5] && tail[2] == v@[n - 4] && tail[3]
                == v@[n - 3] && tail[4] == v@[n - 2] && tail[5] == v@[n - 1]);
        }
    }
    let len: usize = text_byte_len(value);
    if len != OBJECT_NAME_LEN {
        let mut problem = "it is ".to_owned();
        problem.append(decimal_text(len as u64).as_str());
        problem.append(" characters, not a full 40-character git object name");
        return Some(problem);
    }
    let mut hex = n == OBJECT_NAME_LEN;
    let mut i: usize = 0;
    while i < n && hex
        invariant
            n == v@.len(),
            i <= n,
            v@ == value@,
            hex ==> n == OBJECT_NAME_LEN && forall|j: int| 0 <= j < i ==> is_lower_hex(#[trigger] v@[j]),
            !hex ==> !is_object_name(value@),
        decreases n - i, if hex { 1int } else { 0 },
    {
        if !lower_hex(v[i]) {
            hex = false;
        } else {
            i = i + 1;
        }
    }
    if hex {
        None
    } else {
        Some("it is not 40 lowercase hexadecimal characters".to_owned())
    }
}

/// An attestation is accepted exactly when it is a full lowercase object name.
pub proof fn law_only_object_names_are_accepted(value: Seq<char>)
    ensures
        sha_problem(value) is None <==> is_object_name(value),
{
    if is_object_name(value) {
        assert(vstd::utf8::is_ascii_chars(value)) by {
            assert forall|i: int| 0 <= i < value.len() implies (value[i] as nat) < 128 by {
                assert(is_lower_hex(value[i]));
            }
        }
        vstd::utf8::is_ascii_chars_encode_utf8(value);
        if is_marked_dirty(value) {
            let tail = value.subrange(value.len() - 6, value.len() as int);
            assert(tail[0] == '-');
            assert(value[value.len() - 6] == '-');
        }
    }
}

} // verus!
