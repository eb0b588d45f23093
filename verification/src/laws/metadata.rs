//! Laws on metadata tokens: which reports are taken, what they leave, and what expires.

use vstd::prelude::*;
use crate::laws::session::lemma_filtered;
use crate::laws::text::{is_core, law_trimming_leaves_the_core};
use crate::metadata::{
    are_kept_tokens, clipped, distinct_keys, expires, expiry, is_fresh, kept_value,
    makes_difference, opt, patch_changes, patched, patched_by, printable, remembered,
    report_outcome, report_problem, reported, source_at, token_at, unexpired, value_of,
    MetadataReport, SourceSequence, Token, TokenPatch, TokenStore,
};
use crate::response::Refusal;
use crate::search::lemma_first_where;
use crate::text::{byte_len, decimal, is_control, is_name_char, is_white, trimmed};

verus! {

/// A token with this key, this value and this expiry is among them.
pub open spec fn has_token(
    tokens: Seq<Token>,
    key: Seq<char>,
    value: Seq<char>,
    at: Option<u64>,
) -> bool {
    exists|i: int|
        0 <= i < tokens.len() && (#[trigger] tokens[i]).key@ == key && tokens[i].value@ == value
            && tokens[i].expires_at == at
}

pub open spec fn has_key(tokens: Seq<Token>, key: Seq<char>) -> bool {
    exists|i: int| 0 <= i < tokens.len() && (#[trigger] tokens[i]).key@ == key
}

pub open spec fn sets(patch: Seq<TokenPatch>, key: Seq<char>, value: Seq<char>) -> bool {
    exists|i: int|
        0 <= i < patch.len() && (#[trigger] patch[i]).key@ == key && (patch[i].value matches Some(v)
            && v@ == value)
}

pub open spec fn speaks_of(patch: Seq<TokenPatch>, key: Seq<char>) -> bool {
    exists|i: int| 0 <= i < patch.len() && (#[trigger] patch[i]).key@ == key
}

pub open spec fn each_key_once(patch: Seq<TokenPatch>) -> bool {
    forall|i: int, j: int|
        0 <= i < j < patch.len() ==> (#[trigger] patch[i]).key@ != (#[trigger] patch[j]).key@
}

/// A report can be taken when its producer has a name of one to eighty bytes, made of the letters and
/// digits of ASCII and `._:-`; its tokens live no longer than a day, and not for no time; and there
/// are one to sixteen of them, under keys of one to thirty-two bytes of letters, digits, `_` and `-`.
pub proof fn law_which_reports_can_be_taken(report: MetadataReport)
    ensures
        report_problem(report) is None <==> {
            let source = trimmed(report.source@);
            &&& 1 <= source.len()
            &&& byte_len(source) <= 80
            &&& forall|i: int|
                0 <= i < source.len() ==> {
                    let c = #[trigger] source[i];
                    ('a' <= c && c <= 'z') || ('A' <= c && c <= 'Z') || ('0' <= c && c <= '9') || c
                        == '.' || c == '_' || c == ':' || c == '-'
                }
            &&& report.ttl_ms is None || 1 <= report.ttl_ms->0 <= 24 * 60 * 60 * 1000
            &&& 1 <= report.tokens@.len() <= 16
            &&& forall|k: int|
                0 <= k < report.tokens@.len() ==> {
                    let key = (#[trigger] report.tokens@[k]).key@;
                    &&& 1 <= key.len()
                    &&& byte_len(key) <= 32
                    &&& forall|i: int|
                        0 <= i < key.len() ==> {
                            let c = #[trigger] key[i];
                            ('a' <= c && c <= 'z') || ('A' <= c && c <= 'Z') || ('0' <= c && c
                                <= '9') || c == '_' || c == '-'
                        }
                }
        },
{
}

/// A report that cannot be taken is refused for its producer's name, for how long its tokens are to
/// live, or for its tokens, in this order.
pub proof fn law_refused_reports_say_why(report: MetadataReport)
    ensures
        (trimmed(report.source@).len() == 0 || byte_len(trimmed(report.source@)) > 80 || exists|
            i: int,
        |
            0 <= i < trimmed(report.source@).len() && !is_name_char(
                #[trigger] trimmed(report.source@)[i],
            )) <==> report_problem(report) == Some(
            Refusal {
                code: "invalid_metadata_source"@,
                message:
                    "metadata source must be 1 to 80 ASCII letters, digits, '.', '_', ':' or '-'"@,
            },
        ),
        report_problem(report) == Some(
            Refusal {
                code: "invalid_metadata_ttl"@,
                message: "metadata ttl_ms must be between 1 and 86400000"@,
            },
        ) <== (report.ttl_ms == Some(0u64) || (report.ttl_ms matches Some(t) && t > 86_400_000))
            && report_problem(report)->0.code != "invalid_metadata_source"@,
        report_problem(report) == Some(
            Refusal {
                code: "invalid_metadata_token"@,
                message:
                    "metadata tokens must be 1 to 16 entries with keys of 1 to 32 ASCII letters, digits, '_' or '-'"@,
            },
        ) <== report_problem(report) is Some && report_problem(report)->0.code
            != "invalid_metadata_source"@ && (report.ttl_ms is None || 1 <= report.ttl_ms->0
            <= 86_400_000),
{
    reveal_strlit("invalid_metadata_source");
    reveal_strlit("invalid_metadata_ttl");
    reveal_strlit("invalid_metadata_token");
    assert("invalid_metadata_source"@.len() != "invalid_metadata_ttl"@.len());
    assert("invalid_metadata_source"@.len() != "invalid_metadata_token"@.len());
}

/// Of a value its first eighty characters are kept, once control characters are left out and white
/// space is taken off its ends. Nothing is kept of one that is nothing else.
pub proof fn law_what_is_kept_of_a_value(value: Seq<char>)
    ensures
        kept_value(None) is None,
        kept_value(Some(value)) is None <==> (forall|i: int|
            0 <= i < value.len() ==> is_control(#[trigger] value[i]) || is_white(value[i])),
        kept_value(Some(value)) matches Some(kept) ==> {
            let shown = trimmed(value.filter(|c: char| !is_control(c)));
            &&& 0 < kept.len() <= 80
            &&& kept.is_prefix_of(shown)
            &&& kept.len() < shown.len() ==> kept.len() == 80
        },
{
    let p = |c: char| !is_control(c);
    let left = value.filter(p);
    let shown = trimmed(left);
    law_trimming_leaves_the_core(left, 0, 0);
    if shown.len() == 0 {
        assert forall|i: int| 0 <= i < value.len() implies is_control(#[trigger] value[i])
            || is_white(value[i]) by {
            lemma_filtered(value, p, value[i]);
            if p(value[i]) {
                assert(left.contains(value[i]));
                let k = choose|k: int| 0 <= k < left.len() && left[k] == value[i];
                assert(is_white(left[k]));
            }
        }
    } else if forall|i: int|
        0 <= i < value.len() ==> is_control(#[trigger] value[i]) || is_white(value[i]) {
        assert forall|k: int| 0 <= k < left.len() implies is_white(#[trigger] left[k]) by {
            assert(left.contains(left[k]));
            lemma_filtered(value, p, left[k]);
            let i = choose|i: int| 0 <= i < value.len() && value[i] == left[k];
            assert(is_control(value[i]) || is_white(value[i]));
        }
    }
    if let Some(kept) = kept_value(Some(value)) {
        assert(kept =~= shown.subrange(0, kept.len() as int));
    }
}

proof fn lemma_filter_keeps_all<A>(s: Seq<A>, p: spec_fn(A) -> bool)
    requires
        forall|i: int| 0 <= i < s.len() ==> p(#[trigger] s[i]),
    ensures
        s.filter(p) == s,
    decreases s.len(),
{
    reveal(Seq::filter);
    if s.len() > 0 {
        let head = s.drop_last();
        assert forall|i: int| 0 <= i < head.len() implies p(#[trigger] head[i]) by {
            assert(head[i] == s[i]);
        }
        lemma_filter_keeps_all(head, p);
        assert(p(s[s.len() - 1]));
        assert(head.push(s.last()) =~= s);
    } else {
        assert(s.filter(p) =~= s);
    }
}

/// A value of up to eighty printable characters, with no white space at its ends, is kept as it is.
pub proof fn law_plain_values_are_kept(value: Seq<char>)
    requires
        0 < value.len() <= 80,
        forall|i: int| 0 <= i < value.len() ==> !is_control(#[trigger] value[i]),
        !is_white(value[0]),
        !is_white(value.last()),
    ensures
        kept_value(Some(value)) == Some(value),
{
    assert(printable(value) == value) by {
        lemma_filter_keeps_all(value, |c: char| !is_control(c));
    }
    assert(trimmed(value) == value) by {
        law_trimming_leaves_the_core(value, 0, value.len() as int);
        assert(is_core(value, 0, value.len() as int));
        assert(value.subrange(0, value.len() as int) =~= value);
    }
    assert(clipped(value) == value);
}

/// One patch sets its key or clears it, and leaves every other key as it was. No key comes to be
/// there twice.
pub proof fn law_a_patch_is_about_its_key(
    tokens: Seq<Token>,
    p: TokenPatch,
    until: Option<u64>,
    key: Seq<char>,
    value: Seq<char>,
    at: Option<u64>,
)
    requires
        distinct_keys(tokens),
    ensures
        distinct_keys(patched_by(tokens, p, until)),
        key == p.key@ ==> (has_token(patched_by(tokens, p, until), key, value, at) <==> (
        p.value matches Some(v) && v@ == value && at == until)),
        key != p.key@ ==> (has_token(patched_by(tokens, p, until), key, value, at) <==> has_token(
            tokens,
            key,
            value,
            at,
        )),
{
    broadcast use lemma_first_where;

    let after = patched_by(tokens, p, until);
    crate::metadata::lemma_patched_by_wf(tokens, p, until);
    match token_at(tokens, p.key@) {
        Some(i) => match p.value {
            Some(_) => {
                assert(after[i].key@ == p.key@);
                assert(forall|k: int| 0 <= k < tokens.len() && k != i ==> #[trigger] after[k] == tokens[k]);
                assert forall|k: int| 0 <= k < tokens.len() && k != i implies (
                #[trigger] tokens[k]).key@ != p.key@ by {
                    assert(tokens[i].key@ == p.key@);
                }
                if has_token(tokens, key, value, at) && key != p.key@ {
                    let k = choose|k: int|
                        0 <= k < tokens.len() && (#[trigger] tokens[k]).key@ == key
                            && tokens[k].value@ == value && tokens[k].expires_at == at;
                    assert(after[k] == tokens[k]);
                }
                if has_token(after, key, value, at) && key != p.key@ {
                    let k = choose|k: int|
                        0 <= k < after.len() && (#[trigger] after[k]).key@ == key && after[k].value@
                            == value && after[k].expires_at == at;
                    assert(after[k] == tokens[k]);
                }
            },
            None => {
                assert forall|k: int| 0 <= k < tokens.len() && k != i implies (
                #[trigger] tokens[k]).key@ != p.key@ by {
                    assert(tokens[i].key@ == p.key@);
                }
                assert forall|k: int| 0 <= k < after.len() implies (#[trigger] after[k]) == tokens[if k < i {
                    k
                } else {
                    k + 1
                }] by {}
                if has_token(tokens, key, value, at) && key != p.key@ {
                    let k = choose|k: int|
                        0 <= k < tokens.len() && (#[trigger] tokens[k]).key@ == key
                            && tokens[k].value@ == value && tokens[k].expires_at == at;
                    assert(k != i);
                    let m = if k < i {
                        k
                    } else {
                        k - 1
                    };
                    assert(after[m] == tokens[k]);
                }
                if has_token(after, key, value, at) {
                    let k = choose|k: int|
                        0 <= k < after.len() && (#[trigger] after[k]).key@ == key && after[k].value@
                            == value && after[k].expires_at == at;
                    let m = if k < i {
                        k
                    } else {
                        k + 1
                    };
                    assert(after[k] == tokens[m]);
                }
            },
        },
        None => {
            if has_token(tokens, key, value, at) {
                let k = choose|k: int|
                    0 <= k < tokens.len() && (#[trigger] tokens[k]).key@ == key && tokens[k].value@
                        == value && tokens[k].expires_at == at;
                assert(after[k] == tokens[k]);
            }
            if p.value is Some {
                assert(after[tokens.len() as int].key@ == p.key@);
            }
            if has_token(after, key, value, at) {
                let k = choose|k: int|
                    0 <= k < after.len() && (#[trigger] after[k]).key@ == key && after[k].value@
                        == value && after[k].expires_at == at;
                if k < tokens.len() {
                    assert(after[k] == tokens[k]);
                }
            }
        },
    }
}

proof fn lemma_speaking(patch: Seq<TokenPatch>, key: Seq<char>, value: Seq<char>)
    requires
        patch.len() > 0,
    ensures
        speaks_of(patch, key) <==> speaks_of(patch.drop_last(), key) || patch.last().key@ == key,
        sets(patch, key, value) <==> sets(patch.drop_last(), key, value) || (patch.last().key@ == key
            && (patch.last().value matches Some(v) && v@ == value)),
{
    let head = patch.drop_last();
    let n = patch.len() - 1;
    assert(patch[n] == patch.last());
    if speaks_of(patch, key) {
        let i = choose|i: int| 0 <= i < patch.len() && (#[trigger] patch[i]).key@ == key;
        if i < n {
            assert(head[i] == patch[i]);
        }
    }
    if speaks_of(head, key) {
        let i = choose|i: int| 0 <= i < head.len() && (#[trigger] head[i]).key@ == key;
        assert(patch[i] == head[i]);
    }
    if sets(patch, key, value) {
        let i = choose|i: int|
            0 <= i < patch.len() && (#[trigger] patch[i]).key@ == key && (
            patch[i].value matches Some(v) && v@ == value);
        if i < n {
            assert(head[i] == patch[i]);
        }
    }
    if sets(head, key, value) {
        let i = choose|i: int|
            0 <= i < head.len() && (#[trigger] head[i]).key@ == key && (head[i].value matches Some(v)
                && v@ == value);
        assert(patch[i] == head[i]);
    }
}

/// Patches to different keys set what they set, clear what they clear, and leave every other key as
/// it was.
pub proof fn law_patches_are_about_their_keys(
    tokens: Seq<Token>,
    patch: Seq<TokenPatch>,
    until: Option<u64>,
    key: Seq<char>,
    value: Seq<char>,
    at: Option<u64>,
)
    requires
        distinct_keys(tokens),
        each_key_once(patch),
    ensures
        distinct_keys(patched(tokens, patch, until)),
        speaks_of(patch, key) ==> (has_token(patched(tokens, patch, until), key, value, at) <==> (
        sets(patch, key, value) && at == until)),
        !speaks_of(patch, key) ==> (has_token(patched(tokens, patch, until), key, value, at)
            <==> has_token(tokens, key, value, at)),
    decreases patch.len(),
{
    if patch.len() > 0 {
        let head = patch.drop_last();
        let n = patch.len() - 1;
        assert(forall|i: int| 0 <= i < n ==> #[trigger] head[i] == patch[i]);
        law_patches_are_about_their_keys(tokens, head, until, key, value, at);
        law_a_patch_is_about_its_key(
            patched(tokens, head, until),
            patch.last(),
            until,
            key,
            value,
            at,
        );
        lemma_speaking(patch, key, value);
        if key == patch.last().key@ {
            assert(!sets(head, key, value)) by {
                if sets(head, key, value) {
                    let i = choose|i: int|
                        0 <= i < head.len() && (#[trigger] head[i]).key@ == key && (
                        head[i].value matches Some(v) && v@ == value);
                    assert(patch[i].key@ != patch[n].key@);
                }
            }
        }
    }
}

/// A patch makes a difference unless what it asks for is there already.
pub proof fn law_a_patch_makes_a_difference(tokens: Seq<Token>, p: TokenPatch, until: Option<u64>)
    requires
        distinct_keys(tokens),
    ensures
        makes_difference(tokens, p, until) <==> !(match p.value {
            Some(v) => has_token(tokens, p.key@, v@, until),
            None => !has_key(tokens, p.key@),
        }),
{
    broadcast use lemma_first_where;

    if let Some(i) = token_at(tokens, p.key@) {
        assert(tokens[i].key@ == p.key@);
        assert forall|k: int| 0 <= k < tokens.len() && k != i implies (#[trigger] tokens[k]).key@
            != p.key@ by {
            assert(tokens[i].key@ == p.key@);
        }
    }
}

proof fn lemma_keys(tokens: Seq<Token>, key: Seq<char>)
    ensures
        has_key(tokens, key) <==> exists|value: Seq<char>, at: Option<u64>| #[trigger]
            has_token(tokens, key, value, at),
{
    if has_key(tokens, key) {
        let i = choose|i: int| 0 <= i < tokens.len() && (#[trigger] tokens[i]).key@ == key;
        assert(has_token(tokens, key, tokens[i].value@, tokens[i].expires_at));
    }
}

/// Patches to different keys make a difference unless what each asks for is there already.
pub proof fn law_patches_make_a_difference(
    tokens: Seq<Token>,
    patch: Seq<TokenPatch>,
    until: Option<u64>,
)
    requires
        distinct_keys(tokens),
        each_key_once(patch),
    ensures
        patch_changes(tokens, patch, until) <==> !(forall|i: int|
            0 <= i < patch.len() ==> match (#[trigger] patch[i]).value {
                Some(v) => has_token(tokens, patch[i].key@, v@, until),
                None => !has_key(tokens, patch[i].key@),
            }),
    decreases patch.len(),
{
    if patch.len() > 0 {
        let head = patch.drop_last();
        let n = patch.len() - 1;
        let last = patch.last();
        assert(forall|i: int| 0 <= i < n ==> #[trigger] head[i] == patch[i]);
        assert(patch[n] == last);
        law_patches_make_a_difference(tokens, head, until);
        let before = patched(tokens, head, until);
        assert(!speaks_of(head, last.key@)) by {
            if speaks_of(head, last.key@) {
                let i = choose|i: int| 0 <= i < head.len() && (#[trigger] head[i]).key@ == last.key@;
                assert(patch[i].key@ != patch[n].key@);
            }
        }
        assert forall|value: Seq<char>, at: Option<u64>| #[trigger]
            has_token(before, last.key@, value, at) <==> has_token(tokens, last.key@, value, at) by {
            law_patches_are_about_their_keys(tokens, head, until, last.key@, value, at);
        }
        lemma_keys(before, last.key@);
        lemma_keys(tokens, last.key@);
        crate::metadata::lemma_patched_wf(tokens, head, until);
        law_a_patch_makes_a_difference(before, last, until);
        assert(has_key(before, last.key@) <==> has_key(tokens, last.key@)) by {
            if has_key(before, last.key@) {
                let (value, at) = choose|value: Seq<char>, at: Option<u64>| #[trigger]
                    has_token(before, last.key@, value, at);
                assert(has_token(tokens, last.key@, value, at));
            }
            if has_key(tokens, last.key@) {
                let (value, at) = choose|value: Seq<char>, at: Option<u64>| #[trigger]
                    has_token(tokens, last.key@, value, at);
                assert(has_token(before, last.key@, value, at));
            }
        }
        if let Some(v) = last.value {
            assert(has_token(before, last.key@, v@, until) <==> has_token(
                tokens,
                last.key@,
                v@,
                until,
            ));
        }
        assert(makes_difference(before, last, until) <==> !(match patch[n].value {
            Some(v) => has_token(tokens, patch[n].key@, v@, until),
            None => !has_key(tokens, patch[n].key@),
        }));
        if forall|i: int|
            0 <= i < head.len() ==> match (#[trigger] head[i]).value {
                Some(v) => has_token(tokens, head[i].key@, v@, until),
                None => !has_key(tokens, head[i].key@),
            } {
            assert forall|i: int| 0 <= i < n implies match (#[trigger] patch[i]).value {
                Some(v) => has_token(tokens, patch[i].key@, v@, until),
                None => !has_key(tokens, patch[i].key@),
            } by {
                assert(head[i] == patch[i]);
            }
        } else {
            let i = choose|i: int|
                0 <= i < head.len() && !(match (#[trigger] head[i]).value {
                    Some(v) => has_token(tokens, head[i].key@, v@, until),
                    None => !has_key(tokens, head[i].key@),
                });
            assert(patch[i] == head[i]);
        }
    }
}

/// A token lives as long as its report says, counted from when it came; without a limit where it
/// says nothing, or where the clock would not come to the end.
pub proof fn law_how_long_tokens_live(now: u64, ttl: Option<u64>)
    ensures
        ttl is None ==> expires(now, ttl) is None,
        expires(now, ttl) matches Some(at) ==> at - now == ttl->0,
        ttl matches Some(t) ==> (expires(now, ttl) is None <==> now + t > u64::MAX),
{
}

/// The values that a report sets, as they are kept.
pub open spec fn report_sets(report: MetadataReport, key: Seq<char>, value: Seq<char>) -> bool {
    exists|i: int|
        0 <= i < report.tokens@.len() && (#[trigger] report.tokens@[i]).key@ == key && kept_value(
            opt(report.tokens@[i].value),
        ) == Some(value)
}

/// A report that counts, and for which there is room, is taken: its keys read as it says, every other
/// key reads as before, and something has changed unless all was as it says already.
pub proof fn law_reports_are_taken_as_they_say(
    old: TokenStore,
    new: TokenStore,
    report: MetadataReport,
    owner: Seq<char>,
    now: u64,
    changed: bool,
    refused: Option<Refusal>,
    key: Seq<char>,
    value: Seq<char>,
    at: Option<u64>,
)
    requires
        old.wf(),
        each_key_once(report.tokens@),
        report_problem(report) is None,
        is_fresh(old.sequences@, trimmed(report.source@), report.seq),
        report_outcome(old, new, report, owner, now, changed, refused),
        refused is None,
    ensures
        speaks_of(report.tokens@, key) ==> (has_token(new.tokens@, key, value, at) <==> (report_sets(
            report,
            key,
            value,
        ) && at == expires(now, report.ttl_ms))),
        !speaks_of(report.tokens@, key) ==> (has_token(new.tokens@, key, value, at) <==> has_token(
            old.tokens@,
            key,
            value,
            at,
        )),
        changed <==> !(forall|i: int|
            0 <= i < report.tokens@.len() ==> match kept_value(
                opt((#[trigger] report.tokens@[i]).value),
            ) {
                Some(v) => has_token(
                    old.tokens@,
                    report.tokens@[i].key@,
                    v,
                    expires(now, report.ttl_ms),
                ),
                None => !has_key(old.tokens@, report.tokens@[i].key@),
            }),
        new.tokens@.len() <= 32,
        new.wf(),
        report.seq is None ==> new.sequences@ == old.sequences@,
        report.seq matches Some(n) ==> exists|i: int|
            0 <= i < new.sequences@.len() && (#[trigger] new.sequences@[i]).source@ == trimmed(
                report.source@,
            ) && new.sequences@[i].seq == n,
{
    broadcast use lemma_first_where;

    let kept = choose|kept: Seq<TokenPatch>| #[trigger]
        are_kept_tokens(kept, report.tokens@) && reported(
            old,
            new,
            report,
            kept,
            owner,
            now,
            changed,
            refused,
        );
    let until = expires(now, report.ttl_ms);
    let asked = report.tokens@;
    if report.seq is Some {
        if let Some(k) = source_at(old.sequences@, trimmed(report.source@)) {
            assert(new.sequences@[k].source@ == trimmed(report.source@));
        } else {
            assert(new.sequences@[old.sequences@.len() as int].source@ == trimmed(report.source@));
        }
    }
    assert(forall|i: int| 0 <= i < kept.len() ==> (#[trigger] kept[i]).key == asked[i].key);
    assert(each_key_once(kept)) by {
        assert forall|i: int, j: int| 0 <= i < j < kept.len() implies (#[trigger] kept[i]).key@ != (
        #[trigger] kept[j]).key@ by {
            assert(asked[i].key@ != asked[j].key@);
        }
    }
    law_patches_are_about_their_keys(old.tokens@, kept, until, key, value, at);
    law_patches_make_a_difference(old.tokens@, kept, until);
    assert(speaks_of(kept, key) <==> speaks_of(asked, key)) by {
        if speaks_of(kept, key) {
            let i = choose|i: int| 0 <= i < kept.len() && (#[trigger] kept[i]).key@ == key;
            assert(asked[i].key@ == key);
        }
        if speaks_of(asked, key) {
            let i = choose|i: int| 0 <= i < asked.len() && (#[trigger] asked[i]).key@ == key;
            assert(kept[i].key@ == key);
        }
    }
    assert(sets(kept, key, value) <==> report_sets(report, key, value)) by {
        if sets(kept, key, value) {
            let i = choose|i: int|
                0 <= i < kept.len() && (#[trigger] kept[i]).key@ == key && (
                kept[i].value matches Some(v) && v@ == value);
            assert(asked[i].key@ == key);
        }
        if report_sets(report, key, value) {
            let i = choose|i: int|
                0 <= i < asked.len() && (#[trigger] asked[i]).key@ == key && kept_value(
                    opt(asked[i].value),
                ) == Some(value);
            assert(kept[i].key@ == key);
        }
    }
    if forall|i: int|
        0 <= i < kept.len() ==> match (#[trigger] kept[i]).value {
            Some(v) => has_token(old.tokens@, kept[i].key@, v@, until),
            None => !has_key(old.tokens@, kept[i].key@),
        } {
        assert forall|i: int| 0 <= i < asked.len() implies match kept_value(
            opt((#[trigger] asked[i]).value),
        ) {
            Some(v) => has_token(old.tokens@, asked[i].key@, v, until),
            None => !has_key(old.tokens@, asked[i].key@),
        } by {
            assert(kept[i].key == asked[i].key);
        }
    } else {
        let i = choose|i: int|
            0 <= i < kept.len() && !(match (#[trigger] kept[i]).value {
                Some(v) => has_token(old.tokens@, kept[i].key@, v@, until),
                None => !has_key(old.tokens@, kept[i].key@),
            });
        assert(asked[i].key@ == kept[i].key@);
    }
}

/// A report that could be taken is refused only where it would leave more than thirty-two tokens, or
/// where its number would have to be remembered beside those of thirty-two other producers.
pub proof fn law_reports_are_refused_for_want_of_room(
    old: TokenStore,
    new: TokenStore,
    report: MetadataReport,
    owner: Seq<char>,
    now: u64,
    changed: bool,
    refused: Option<Refusal>,
)
    requires
        report_problem(report) is None,
        report_outcome(old, new, report, owner, now, changed, refused),
    ensures
        refused matches Some(r) ==> {
            ||| r == (Refusal {
                code: "metadata_token_limit"@,
                message: owner + " metadata may contain at most "@ + decimal(32) + " tokens"@,
            })
            ||| r == (Refusal {
                code: "metadata_sequence_source_limit"@,
                message: owner + " metadata may track at most "@ + decimal(32)
                    + " sequenced sources"@,
            }) && report.seq is Some && old.sequences@.len() >= 32 && forall|i: int|
                0 <= i < old.sequences@.len() ==> (#[trigger] old.sequences@[i]).source@ != trimmed(
                    report.source@,
                )
        },
        refused is Some ==> new == old && !changed,
        old.tokens@.len() + report.tokens@.len() <= 32 && (report.seq is None
            || old.sequences@.len() < 32) ==> refused is None,
{
    broadcast use lemma_first_where;

    let kept = choose|kept: Seq<TokenPatch>| #[trigger]
        are_kept_tokens(kept, report.tokens@) && reported(
            old,
            new,
            report,
            kept,
            owner,
            now,
            changed,
            refused,
        );
    lemma_patched_count(old.tokens@, kept, expires(now, report.ttl_ms));
}

proof fn lemma_patched_count(tokens: Seq<Token>, patch: Seq<TokenPatch>, until: Option<u64>)
    ensures
        patched(tokens, patch, until).len() <= tokens.len() + patch.len(),
    decreases patch.len(),
{
    broadcast use lemma_first_where;

    if patch.len() > 0 {
        lemma_patched_count(tokens, patch.drop_last(), until);
    }
}

pub open spec fn distinct_sources(sequences: Seq<SourceSequence>) -> bool {
    forall|i: int, j: int|
        0 <= i < j < sequences.len() ==> (#[trigger] sequences[i]).source@ != (
        #[trigger] sequences[j]).source@
}

/// A report counts unless its producer has already reported under the same number or a higher one.
/// One without a number always counts.
pub proof fn law_later_reports_count(
    sequences: Seq<SourceSequence>,
    source: Seq<char>,
    seq: Option<u64>,
)
    requires
        distinct_sources(sequences),
    ensures
        is_fresh(sequences, source, seq) <==> (seq is None || forall|i: int|
            0 <= i < sequences.len() && (#[trigger] sequences[i]).source@ == source
                ==> sequences[i].seq < seq->0),
{
    broadcast use lemma_first_where;

    if let Some(k) = source_at(sequences, source) {
        assert(sequences[k].source@ == source);
        assert forall|i: int| 0 <= i < sequences.len() && i != k implies (
        #[trigger] sequences[i]).source@ != source by {
            assert(sequences[k].source@ == source);
        }
    }
}

/// Of a numbered report the number is remembered under its producer, once; what is remembered of
/// others stays.
pub proof fn law_numbers_are_remembered(
    before: Seq<SourceSequence>,
    after: Seq<SourceSequence>,
    source: Seq<char>,
    seq: Option<u64>,
)
    requires
        distinct_sources(before),
        remembered(before, after, source, seq),
    ensures
        distinct_sources(after),
        seq is None ==> after == before,
        seq matches Some(n) ==> exists|i: int|
            0 <= i < after.len() && (#[trigger] after[i]).source@ == source && after[i].seq == n,
        forall|i: int|
            0 <= i < before.len() && (#[trigger] before[i]).source@ != source ==> after[i]
                == before[i],
        before.len() <= after.len() <= before.len() + 1,
{
    broadcast use lemma_first_where;

    if seq is Some {
        if let Some(k) = source_at(before, source) {
            assert(after[k].source@ == source);
            assert forall|i: int, j: int| 0 <= i < j < after.len() implies (
            #[trigger] after[i]).source@ != (#[trigger] after[j]).source@ by {
                assert(before[i].source@ != before[j].source@);
            }
        } else {
            let n = before.len() as int;
            assert(after[n].source@ == source);
            assert forall|i: int, j: int| 0 <= i < j < after.len() implies (
            #[trigger] after[i]).source@ != (#[trigger] after[j]).source@ by {
                if j < n {
                    assert(before[i].source@ != before[j].source@);
                } else {
                    assert(before[i].source@ != source);
                }
            }
        }
    }
}

/// A token goes when its time has come, and not before; one without a limit stays.
pub proof fn law_tokens_go_when_their_time_is_up(tokens: Seq<Token>, now: u64, token: Token)
    ensures
        unexpired(tokens, now).contains(token) <==> tokens.contains(token) && (token.expires_at is None
            || now < token.expires_at->0),
        unexpired(tokens, now).len() <= tokens.len(),
{
    lemma_filtered(tokens, |t: Token| !(t.expires_at matches Some(at) && at <= now), token);
    tokens.lemma_filter_len(|t: Token| !(t.expires_at matches Some(at) && at <= now));
}

/// The next expiry is that of some token, and no token goes before it.
pub proof fn law_the_next_expiry_is_the_first(tokens: Seq<Token>)
    ensures
        expiry(tokens) is None <==> (forall|i: int|
            0 <= i < tokens.len() ==> (#[trigger] tokens[i]).expires_at is None),
        expiry(tokens) matches Some(t) ==> {
            &&& exists|i: int| 0 <= i < tokens.len() && (#[trigger] tokens[i]).expires_at == Some(t)
            &&& forall|i: int|
                0 <= i < tokens.len() ==> ((#[trigger] tokens[i]).expires_at matches Some(x) ==> t
                    <= x)
        },
    decreases tokens.len(),
{
    if tokens.len() > 0 {
        let head = tokens.drop_last();
        let n = tokens.len() - 1;
        law_the_next_expiry_is_the_first(head);
        assert(forall|i: int| 0 <= i < n ==> #[trigger] head[i] == tokens[i]);
        assert(tokens[n] == tokens.last());
        if let Some(t) = expiry(head) {
            let i = choose|i: int| 0 <= i < head.len() && (#[trigger] head[i]).expires_at == Some(t);
            assert(tokens[i].expires_at == Some(t));
        } else {
            assert forall|i: int| 0 <= i < n implies (#[trigger] tokens[i]).expires_at is None by {
                assert(head[i].expires_at is None);
            }
        }
        assert forall|i: int| 0 <= i < tokens.len() implies ((
        #[trigger] tokens[i]).expires_at matches Some(x) ==> expiry(tokens)->0 <= x) by {
            if i < n {
                assert(head[i] == tokens[i]);
            }
        }
    }
}

/// A key reads as the value of the token that has it.
pub proof fn law_keys_read_as_their_tokens(tokens: Seq<Token>, key: Seq<char>, value: Seq<char>)
    requires
        distinct_keys(tokens),
    ensures
        value_of(tokens, key) == Some(value) <==> exists|at: Option<u64>| #[trigger]
            has_token(tokens, key, value, at),
        value_of(tokens, key) is None <==> !has_key(tokens, key),
{
    broadcast use lemma_first_where;

    if let Some(i) = token_at(tokens, key) {
        assert(tokens[i].key@ == key);
        assert forall|k: int| 0 <= k < tokens.len() && k != i implies (#[trigger] tokens[k]).key@
            != key by {
            assert(tokens[i].key@ == key);
        }
        assert(has_token(tokens, key, tokens[i].value@, tokens[i].expires_at));
    }
}

/// A value that is reported is looked at as it is, and none as none.
pub proof fn law_values_are_looked_at_as_they_are(value: String)
    ensures
        opt(Some(value)) == Some(value@),
        opt(None) is None,
{
}

} // verus!
