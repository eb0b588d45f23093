//! Metadata tokens: short values that producers attach to a pane or a workspace.

use vstd::prelude::*;
use vstd::string::*;
use crate::response::{error, refusal, ApiError, Refusal};
use crate::search::{first_where, lemma_first_where, lemma_is_first, retain_marked};
use crate::text::{
    alnum, byte_len, chars_of, control, decimal, decimal_text, is_alnum, is_control, is_name_char,
    join3, name_char, same_text, text_byte_len, trim, trimmed,
};

verus! {

pub const MAX_SOURCE_BYTES: usize = 80;

pub const MAX_TTL_MS: u64 = 86_400_000;

pub const MAX_TOKENS_PER_REPORT: usize = 16;

pub const MAX_KEY_BYTES: usize = 32;

pub const MAX_VALUE_CHARS: usize = 80;

/// The most tokens one pane or workspace may have.
pub const MAX_KEYS_PER_RESOURCE: usize = 32;

/// The most producers whose sequence numbers are remembered.
pub const MAX_SEQUENCE_SOURCES: usize = 32;

#[derive(Debug)]
pub struct Token {
    pub key: String,
    pub value: String,
    pub expires_at: Option<u64>,
}

/// The highest sequence number a producer has reported under.
#[derive(Debug)]
pub struct SourceSequence {
    pub source: String,
    pub seq: u64,
}

#[derive(Debug)]
pub struct TokenStore {
    pub tokens: Vec<Token>,
    pub sequences: Vec<SourceSequence>,
}

/// A token to set, or to clear where it has no value.
#[derive(Debug)]
pub struct TokenPatch {
    pub key: String,
    pub value: Option<String>,
}

/// What a producer reports.
#[derive(Debug)]
pub struct MetadataReport {
    pub source: String,
    pub tokens: Vec<TokenPatch>,
    pub seq: Option<u64>,
    pub ttl_ms: Option<u64>,
}

// ---------------------------------------------------------------------------------------------
// What a report means
// ---------------------------------------------------------------------------------------------

/// A producer's name: not blank, not long, and made of letters, digits and `._:-`.
pub open spec fn is_source(s: Seq<char>) -> bool {
    &&& 0 < s.len()
    &&& byte_len(s) <= MAX_SOURCE_BYTES
    &&& forall|i: int| 0 <= i < s.len() ==> is_name_char(#[trigger] s[i])
}

/// Letters and digits of ASCII, `_` and `-`.
pub open spec fn is_key_char(c: char) -> bool {
    is_alnum(c) || c == '_' || c == '-'
}

pub open spec fn is_key(s: Seq<char>) -> bool {
    &&& 0 < s.len()
    &&& byte_len(s) <= MAX_KEY_BYTES
    &&& forall|i: int| 0 <= i < s.len() ==> is_key_char(#[trigger] s[i])
}

/// The text without control characters.
pub open spec fn printable(s: Seq<char>) -> Seq<char> {
    s.filter(|c: char| !is_control(c))
}

/// The first characters, as many as a value may have.
pub open spec fn clipped(s: Seq<char>) -> Seq<char> {
    if s.len() > MAX_VALUE_CHARS {
        s.take(MAX_VALUE_CHARS as int)
    } else {
        s
    }
}

/// The value that is kept: printable, trimmed and clipped; nothing where nothing is left.
pub open spec fn kept_value(value: Option<Seq<char>>) -> Option<Seq<char>> {
    match value {
        Some(v) => {
            let kept = clipped(trimmed(printable(v)));
            if kept.len() == 0 {
                None
            } else {
                Some(kept)
            }
        },
        None => None,
    }
}

/// Every key of the report can be one, and there are neither none nor too many.
pub open spec fn are_tokens(patch: Seq<TokenPatch>) -> bool {
    &&& 0 < patch.len() <= MAX_TOKENS_PER_REPORT
    &&& forall|i: int| 0 <= i < patch.len() ==> is_key((#[trigger] patch[i]).key@)
}

pub open spec fn is_ttl(ttl: Option<u64>) -> bool {
    ttl matches Some(t) ==> 0 < t <= MAX_TTL_MS
}

/// `kept` are the tokens of a report with the values that are kept.
pub open spec fn are_kept_tokens(kept: Seq<TokenPatch>, patch: Seq<TokenPatch>) -> bool {
    &&& kept.len() == patch.len()
    &&& forall|i: int|
        0 <= i < kept.len() ==> (#[trigger] kept[i]).key == patch[i].key && match kept[i].value {
            Some(v) => kept_value(opt(patch[i].value)) == Some(v@),
            None => kept_value(opt(patch[i].value)) is None,
        }
}

pub open spec fn opt(value: Option<String>) -> Option<Seq<char>> {
    match value {
        Some(v) => Some(v@),
        None => None,
    }
}

pub open spec fn bad_source() -> Refusal {
    refusal(
        "invalid_metadata_source"@,
        "metadata source must be 1 to 80 ASCII letters, digits, '.', '_', ':' or '-'"@,
    )
}

pub open spec fn bad_ttl() -> Refusal {
    refusal("invalid_metadata_ttl"@, "metadata ttl_ms must be between 1 and 86400000"@)
}

pub open spec fn bad_token() -> Refusal {
    refusal(
        "invalid_metadata_token"@,
        "metadata tokens must be 1 to 16 entries with keys of 1 to 32 ASCII letters, digits, '_' or '-'"@,
    )
}

/// Where a producer's numbers are remembered.
pub open spec fn source_at(sequences: Seq<SourceSequence>, name: Seq<char>) -> Option<int> {
    first_where(sequences, |s: SourceSequence| s.source@ == name)
}

/// The sequence number last accepted from a producer.
pub open spec fn last_seq(sequences: Seq<SourceSequence>, source: Seq<char>) -> Option<u64> {
    match source_at(sequences, source) {
        Some(i) => Some(sequences[i].seq),
        None => None,
    }
}

/// A report counts unless its producer has already reported under the same or a later number.
pub open spec fn is_fresh(sequences: Seq<SourceSequence>, source: Seq<char>, seq: Option<u64>) -> bool {
    seq matches Some(n) ==> (last_seq(sequences, source) matches Some(last) ==> n > last)
}

/// There is no room to remember another producer's numbers.
pub open spec fn sources_full(sequences: Seq<SourceSequence>, source: Seq<char>, seq: Option<u64>) -> bool {
    seq is Some && last_seq(sequences, source) is None && sequences.len() >= MAX_SEQUENCE_SOURCES
}

/// `new` remembers that `source` reported under `seq`.
pub open spec fn remembered(
    old: Seq<SourceSequence>,
    new: Seq<SourceSequence>,
    source: Seq<char>,
    seq: Option<u64>,
) -> bool {
    match seq {
        None => new == old,
        Some(n) => match source_at(old, source) {
            Some(i) => new == old.update(i, (SourceSequence { source: old[i].source, seq: n })),
            None => {
                &&& new.len() == old.len() + 1
                &&& new == old.push(new.last())
                &&& new.last().source@ == source
                &&& new.last().seq == n
            },
        },
    }
}

pub open spec fn token_at(tokens: Seq<Token>, key: Seq<char>) -> Option<int> {
    first_where(tokens, |t: Token| t.key@ == key)
}

/// The tokens after one patch.
pub open spec fn patched_by(tokens: Seq<Token>, p: TokenPatch, expires: Option<u64>) -> Seq<Token> {
    match (token_at(tokens, p.key@), p.value) {
        (Some(i), Some(v)) => tokens.update(
            i,
            (Token { key: tokens[i].key, value: v, expires_at: expires }),
        ),
        (Some(i), None) => tokens.remove(i),
        (None, Some(v)) => tokens.push((Token { key: p.key, value: v, expires_at: expires })),
        (None, None) => tokens,
    }
}

/// Whether one patch makes a difference.
pub open spec fn makes_difference(tokens: Seq<Token>, p: TokenPatch, expires: Option<u64>) -> bool {
    match (token_at(tokens, p.key@), p.value) {
        (Some(i), Some(v)) => tokens[i].value@ != v@ || tokens[i].expires_at != expires,
        (Some(_), None) => true,
        (None, v) => v is Some,
    }
}

/// The tokens after all the patches, in order.
pub open spec fn patched(tokens: Seq<Token>, patch: Seq<TokenPatch>, expires: Option<u64>) -> Seq<Token>
    decreases patch.len(),
{
    if patch.len() == 0 {
        tokens
    } else {
        patched_by(patched(tokens, patch.drop_last(), expires), patch.last(), expires)
    }
}

/// Whether any of the patches makes a difference.
pub open spec fn patch_changes(tokens: Seq<Token>, patch: Seq<TokenPatch>, expires: Option<u64>) -> bool
    decreases patch.len(),
{
    if patch.len() == 0 {
        false
    } else {
        patch_changes(tokens, patch.drop_last(), expires) || makes_difference(
            patched(tokens, patch.drop_last(), expires),
            patch.last(),
            expires,
        )
    }
}

pub open spec fn distinct_keys(tokens: Seq<Token>) -> bool {
    forall|i: int, j: int|
        0 <= i < j < tokens.len() ==> (#[trigger] tokens[i]).key@ != (#[trigger] tokens[j]).key@
}

/// What a key reads as.
pub open spec fn value_of(tokens: Seq<Token>, key: Seq<char>) -> Option<Seq<char>> {
    match token_at(tokens, key) {
        Some(i) => Some(tokens[i].value@),
        None => None,
    }
}

/// The tokens that have not expired.
pub open spec fn unexpired(tokens: Seq<Token>, now: u64) -> Seq<Token> {
    tokens.filter(|t: Token| !(t.expires_at matches Some(at) && at <= now))
}

/// When the next token expires.
pub open spec fn expiry(tokens: Seq<Token>) -> Option<u64>
    decreases tokens.len(),
{
    if tokens.len() == 0 {
        None
    } else {
        crate::runtime::earlier(expiry(tokens.drop_last()), tokens.last().expires_at)
    }
}

impl TokenStore {
    /// No key occurs twice.
    pub open spec fn wf(&self) -> bool {
        distinct_keys(self.tokens@)
    }
}

/// Why a report is refused before anything is looked up.
pub open spec fn report_problem(report: MetadataReport) -> Option<Refusal> {
    if !is_source(trimmed(report.source@)) {
        Some(bad_source())
    } else if !is_ttl(report.ttl_ms) {
        Some(bad_ttl())
    } else if !are_tokens(report.tokens@) {
        Some(bad_token())
    } else {
        None
    }
}

/// When tokens reported now expire. A time past the end of the clock never comes.
pub open spec fn expires(now: u64, ttl: Option<u64>) -> Option<u64> {
    match ttl {
        Some(t) if now + t <= u64::MAX => Some((now + t) as u64),
        _ => None,
    }
}

/// `new` is what a valid report makes of `old`, `kept` being its tokens with the values that are
/// kept: nothing for a stale one or one that is refused. `owner` is who has the tokens, as errors
/// call it.
pub open spec fn reported(
    old: TokenStore,
    new: TokenStore,
    report: MetadataReport,
    kept: Seq<TokenPatch>,
    owner: Seq<char>,
    now: u64,
    changed: bool,
    refused: Option<Refusal>,
) -> bool {
    let source = trimmed(report.source@);
    let next = patched(old.tokens@, kept, expires(now, report.ttl_ms));
    if !is_fresh(old.sequences@, source, report.seq) {
        refused is None && !changed && new == old
    } else if next.len() > MAX_KEYS_PER_RESOURCE {
        !changed && new == old && refused == Some(
            refusal(
                "metadata_token_limit"@,
                owner + " metadata may contain at most "@ + decimal(MAX_KEYS_PER_RESOURCE as nat)
                    + " tokens"@,
            ),
        )
    } else if sources_full(old.sequences@, source, report.seq) {
        !changed && new == old && refused == Some(
            refusal(
                "metadata_sequence_source_limit"@,
                owner + " metadata may track at most "@ + decimal(MAX_SEQUENCE_SOURCES as nat)
                    + " sequenced sources"@,
            ),
        )
    } else {
        &&& refused is None
        &&& changed == patch_changes(old.tokens@, kept, expires(now, report.ttl_ms))
        &&& new.tokens@ == next
        &&& remembered(old.sequences@, new.sequences@, source, report.seq)
    }
}

/// `reported`, for the tokens that are kept of the report.
pub open spec fn report_outcome(
    old: TokenStore,
    new: TokenStore,
    report: MetadataReport,
    owner: Seq<char>,
    now: u64,
    changed: bool,
    refused: Option<Refusal>,
) -> bool {
    match report_problem(report) {
        Some(problem) => refused == Some(problem) && !changed && new == old,
        None => exists|kept: Seq<TokenPatch>| #[trigger]
            are_kept_tokens(kept, report.tokens@) && reported(
                old,
                new,
                report,
                kept,
                owner,
                now,
                changed,
                refused,
            ),
    }
}

// ---------------------------------------------------------------------------------------------
// Validation
// ---------------------------------------------------------------------------------------------

/// A producer's name, trimmed, or why it cannot be one.
pub fn normalize_metadata_source(source: &str) -> (r: Result<String, ApiError>)
    ensures
        match r {
            Ok(name) => name@ == trimmed(source@) && is_source(name@),
            Err(e) => !is_source(trimmed(source@)) && e@ == bad_source(),
        },
{
    let name = trim(source);
    let chars = chars_of(name);
    let mut valid = chars.len() > 0 && text_byte_len(name) <= MAX_SOURCE_BYTES;
    let mut i: usize = 0;
    while valid && i < chars.len()
        invariant
            i <= chars@.len(),
            chars@ == name@,
            valid ==> chars@.len() > 0 && byte_len(name@) <= MAX_SOURCE_BYTES && forall|j: int|
                0 <= j < i ==> is_name_char(#[trigger] chars@[j]),
            !valid ==> !is_source(name@),
        decreases chars@.len() - i, if valid { 1int } else { 0 },
    {
        if name_char(chars[i]) {
            i = i + 1;
        } else {
            valid = false;
        }
    }
    if valid {
        Ok(name.to_owned())
    } else {
        Err(
            error(
                "invalid_metadata_source",
                "metadata source must be 1 to 80 ASCII letters, digits, '.', '_', ':' or '-'",
            ),
        )
    }
}

/// How long tokens are to live, or why not so long.
pub fn normalize_metadata_ttl(ttl_ms: Option<u64>) -> (r: Result<Option<u64>, ApiError>)
    ensures
        match r {
            Ok(ttl) => ttl == ttl_ms && is_ttl(ttl_ms),
            Err(e) => !is_ttl(ttl_ms) && e@ == bad_ttl(),
        },
{
    match ttl_ms {
        Some(ttl) => if ttl == 0 || ttl > MAX_TTL_MS {
            Err(error("invalid_metadata_ttl", "metadata ttl_ms must be between 1 and 86400000"))
        } else {
            Ok(Some(ttl))
        },
        None => Ok(None),
    }
}

fn valid_key(key: &str) -> (r: bool)
    ensures
        r == is_key(key@),
{
    let chars = chars_of(key);
    if chars.len() == 0 || text_byte_len(key) > MAX_KEY_BYTES {
        return false;
    }
    let mut i: usize = 0;
    while i < chars.len()
        invariant
            i <= chars@.len(),
            chars@ == key@,
            forall|j: int| 0 <= j < i ==> is_key_char(#[trigger] chars@[j]),
        decreases chars@.len() - i,
    {
        let c = chars[i];
        if !(alnum(c) || c == '_' || c == '-') {
            return false;
        }
        i = i + 1;
    }
    true
}

fn without_controls(text: &str) -> (r: String)
    ensures
        r@ == printable(text@),
{
    let ghost p = |c: char| !is_control(c);
    let chars = chars_of(text);
    let mut kept = String::new();
    let mut i: usize = 0;
    proof {
        assert(chars@.take(0) =~= Seq::<char>::empty());
        assert(Seq::<char>::empty().filter(p) =~= Seq::<char>::empty()) by {
            reveal(Seq::filter);
        }
    }
    while i < chars.len()
        invariant
            i <= chars@.len(),
            chars@ == text@,
            p == (|c: char| !is_control(c)),
            kept@ == chars@.take(i as int).filter(p),
        decreases chars@.len() - i,
    {
        proof {
            reveal(Seq::filter);
            assert(chars@.take(i + 1).drop_last() =~= chars@.take(i as int));
            assert(chars@.take(i + 1).last() == chars@[i as int]);
        }
        if !control(chars[i]) {
            let one = text.substring_char(i, i + 1);
            let ghost before = kept@;
            kept.append(one);
            proof {
                assert(kept@ =~= before.push(chars@[i as int]));
            }
        }
        i = i + 1;
    }
    proof {
        assert(chars@.take(i as int) =~= chars@);
    }
    kept
}

/// The value that is kept of a reported one.
pub fn normalize_value(value: &Option<String>) -> (r: Option<String>)
    ensures
        match r {
            Some(v) => kept_value(opt(*value)) == Some(v@),
            None => kept_value(opt(*value)) is None,
        },
{
    match value {
        Some(value) => {
            let shown = without_controls(value.as_str());
            let kept = trim(shown.as_str());
            let len: usize = kept.unicode_len();
            if len == 0 {
                None
            } else if len > MAX_VALUE_CHARS {
                let clip = kept.substring_char(0, MAX_VALUE_CHARS);
                proof {
                    assert(kept@.subrange(0, MAX_VALUE_CHARS as int) =~= kept@.take(
                        MAX_VALUE_CHARS as int,
                    ));
                }
                Some(clip.to_owned())
            } else {
                Some(kept.to_owned())
            }
        },
        None => None,
    }
}

/// The tokens of a report with the values that are kept, or why they are refused.
pub fn normalize_metadata_tokens(patch: &Vec<TokenPatch>) -> (r: Result<Vec<TokenPatch>, ApiError>)
    ensures
        match r {
            Ok(kept) => are_tokens(patch@) && are_kept_tokens(kept@, patch@),
            Err(e) => !are_tokens(patch@) && e@ == bad_token(),
        },
{
    let message =
        "metadata tokens must be 1 to 16 entries with keys of 1 to 32 ASCII letters, digits, '_' or '-'";
    if patch.len() == 0 || patch.len() > MAX_TOKENS_PER_REPORT {
        return Err(error("invalid_metadata_token", message));
    }
    let mut kept: Vec<TokenPatch> = Vec::new();
    let mut i: usize = 0;
    while i < patch.len()
        invariant
            i <= patch@.len(),
            0 < patch@.len() <= MAX_TOKENS_PER_REPORT,
            message@
                == "metadata tokens must be 1 to 16 entries with keys of 1 to 32 ASCII letters, digits, '_' or '-'"@,
            kept@.len() == i,
            forall|j: int| 0 <= j < i ==> is_key((#[trigger] patch@[j]).key@),
            forall|j: int|
                0 <= j < i ==> (#[trigger] kept@[j]).key == patch@[j].key && match kept@[j].value {
                    Some(v) => kept_value(opt(patch@[j].value)) == Some(v@),
                    None => kept_value(opt(patch@[j].value)) is None,
                },
        decreases patch@.len() - i,
    {
        if !valid_key(patch[i].key.as_str()) {
            return Err(error("invalid_metadata_token", message));
        }
        let value = normalize_value(&patch[i].value);
        kept.push(TokenPatch { key: patch[i].key.clone(), value });
        i = i + 1;
    }
    Ok(kept)
}

// ---------------------------------------------------------------------------------------------
// The store
// ---------------------------------------------------------------------------------------------

#[verifier::loop_isolation(false)]
fn find_token(tokens: &Vec<Token>, key: &str) -> (r: Option<usize>)
    ensures
        match r {
            Some(i) => token_at(tokens@, key@) == Some(i as int) && i < tokens@.len(),
            None => token_at(tokens@, key@) is None,
        },
{
    let ghost p = |t: Token| t.key@ == key@;
    let mut i: usize = 0;
    while i < tokens.len()
        invariant
            i <= tokens@.len(),
            forall|j: int| 0 <= j < i ==> (#[trigger] tokens@[j]).key@ != key@,
        decreases tokens@.len() - i,
    {
        if same_text(tokens[i].key.as_str(), key) {
            proof {
                lemma_is_first(tokens@, p, i as int);
            }
            return Some(i);
        }
        i = i + 1;
    }
    proof {
        lemma_first_where(tokens@, p);
    }
    None
}

#[verifier::loop_isolation(false)]
fn find_source(sequences: &Vec<SourceSequence>, source: &str) -> (r: Option<usize>)
    ensures
        match r {
            Some(i) => source_at(sequences@, source@) == Some(i as int) && i < sequences@.len(),
            None => source_at(sequences@, source@) is None,
        },
{
    let ghost p = |s: SourceSequence| s.source@ == source@;
    let mut i: usize = 0;
    while i < sequences.len()
        invariant
            i <= sequences@.len(),
            forall|j: int| 0 <= j < i ==> (#[trigger] sequences@[j]).source@ != source@,
        decreases sequences@.len() - i,
    {
        if same_text(sequences[i].source.as_str(), source) {
            proof {
                lemma_is_first(sequences@, p, i as int);
            }
            return Some(i);
        }
        i = i + 1;
    }
    proof {
        lemma_first_where(sequences@, p);
    }
    None
}

/// The same tokens.
pub fn copy_tokens(tokens: &Vec<Token>) -> (r: Vec<Token>)
    ensures
        r@ == tokens@,
{
    let mut r: Vec<Token> = Vec::new();
    let mut i: usize = 0;
    while i < tokens.len()
        invariant
            i <= tokens@.len(),
            r@ == tokens@.take(i as int),
        decreases tokens@.len() - i,
    {
        let t = &tokens[i];
        r.push(Token { key: t.key.clone(), value: t.value.clone(), expires_at: t.expires_at });
        i = i + 1;
        proof {
            assert(tokens@.take(i as int) =~= tokens@.take(i - 1).push(tokens@[i - 1]));
        }
    }
    proof {
        assert(tokens@.take(i as int) =~= tokens@);
    }
    r
}

/// The tokens after a patch, and whether it made a difference.
fn apply_patch(tokens: &Vec<Token>, patch: &Vec<TokenPatch>, expires_at: Option<u64>) -> (r: (
    Vec<Token>,
    bool,
))
    ensures
        r.0@ == patched(tokens@, patch@, expires_at),
        r.1 == patch_changes(tokens@, patch@, expires_at),
{
    let mut next = copy_tokens(tokens);
    let mut changed = false;
    let mut i: usize = 0;
    proof {
        assert(patch@.take(0) =~= Seq::<TokenPatch>::empty());
    }
    while i < patch.len()
        invariant
            i <= patch@.len(),
            next@ == patched(tokens@, patch@.take(i as int), expires_at),
            changed == patch_changes(tokens@, patch@.take(i as int), expires_at),
        decreases patch@.len() - i,
    {
        let p = &patch[i];
        proof {
            assert(patch@.take(i + 1).drop_last() =~= patch@.take(i as int));
            assert(patch@.take(i + 1).last() == *p);
        }
        match (find_token(&next, p.key.as_str()), &p.value) {
            (Some(at), Some(value)) => {
                let same_expiry = match (next[at].expires_at, expires_at) {
                    (Some(x), Some(y)) => x == y,
                    (None, None) => true,
                    _ => false,
                };
                if !same_expiry || !same_text(next[at].value.as_str(), value.as_str()) {
                    changed = true;
                }
                let key = next[at].key.clone();
                next.set(at, Token { key, value: value.clone(), expires_at });
            },
            (Some(at), None) => {
                next.remove(at);
                changed = true;
            },
            (None, Some(value)) => {
                next.push(Token { key: p.key.clone(), value: value.clone(), expires_at });
                changed = true;
            },
            (None, None) => {},
        }
        i = i + 1;
    }
    proof {
        assert(patch@.take(i as int) =~= patch@);
    }
    (next, changed)
}

pub proof fn lemma_patched_by_wf(tokens: Seq<Token>, p: TokenPatch, expires_at: Option<u64>)
    requires
        distinct_keys(tokens),
    ensures
        distinct_keys(patched_by(tokens, p, expires_at)),
{
    let next = patched_by(tokens, p, expires_at);
    lemma_first_where(tokens, |t: Token| t.key@ == p.key@);
    match token_at(tokens, p.key@) {
        Some(i) => match p.value {
            Some(_) => {
                assert forall|x: int, y: int| 0 <= x < y < next.len() implies (
                #[trigger] next[x]).key@ != (#[trigger] next[y]).key@ by {
                    assert(tokens[x].key@ != tokens[y].key@);
                }
            },
            None => {
                assert forall|x: int, y: int| 0 <= x < y < next.len() implies (
                #[trigger] next[x]).key@ != (#[trigger] next[y]).key@ by {
                    let x0 = if x < i { x } else { x + 1 };
                    let y0 = if y < i { y } else { y + 1 };
                    assert(tokens[x0].key@ != tokens[y0].key@);
                }
            },
        },
        None => {
            assert forall|x: int, y: int| 0 <= x < y < next.len() implies (#[trigger] next[x]).key@
                != (#[trigger] next[y]).key@ by {
                if y < tokens.len() {
                    assert(tokens[x].key@ != tokens[y].key@);
                } else {
                    assert(tokens[x].key@ != p.key@);
                }
            }
        },
    }
}

pub proof fn lemma_patched_wf(tokens: Seq<Token>, patch: Seq<TokenPatch>, expires_at: Option<u64>)
    requires
        distinct_keys(tokens),
    ensures
        distinct_keys(patched(tokens, patch, expires_at)),
    decreases patch.len(),
{
    if patch.len() > 0 {
        lemma_patched_wf(tokens, patch.drop_last(), expires_at);
        lemma_patched_by_wf(
            patched(tokens, patch.drop_last(), expires_at),
            patch.last(),
            expires_at,
        );
    }
}

proof fn lemma_filter_keeps_keys_distinct(tokens: Seq<Token>, p: spec_fn(Token) -> bool)
    requires
        distinct_keys(tokens),
    ensures
        distinct_keys(tokens.filter(p)),
        forall|i: int|
            0 <= i < tokens.filter(p).len() ==> exists|j: int|
                0 <= j < tokens.len() && tokens[j] == #[trigger] tokens.filter(p)[i],
    decreases tokens.len(),
{
    reveal(Seq::filter);
    if tokens.len() > 0 {
        let head = tokens.drop_last();
        let kept = head.filter(p);
        let all = tokens.filter(p);
        assert(forall|i: int| 0 <= i < head.len() ==> head[i] == #[trigger] tokens[i]);
        lemma_filter_keeps_keys_distinct(head, p);
        assert forall|i: int| 0 <= i < all.len() implies exists|j: int|
            0 <= j < tokens.len() && tokens[j] == #[trigger] all[i] by {
            if i < kept.len() {
                let j = choose|j: int| 0 <= j < head.len() && head[j] == kept[i];
                assert(tokens[j] == all[i]);
            } else {
                assert(tokens[tokens.len() - 1] == all[i]);
            }
        }
        assert forall|x: int, y: int| 0 <= x < y < all.len() implies (#[trigger] all[x]).key@ != (
        #[trigger] all[y]).key@ by {
            if y < kept.len() {
                assert(kept[x].key@ != kept[y].key@);
            } else {
                let j = choose|j: int| 0 <= j < head.len() && head[j] == kept[x];
                assert(tokens[j].key@ != tokens[tokens.len() - 1].key@);
            }
        }
    }
}

impl TokenStore {
    pub fn new() -> (r: TokenStore)
        ensures
            r.wf(),
            r.tokens@.len() == 0,
            r.sequences@.len() == 0,
    {
        TokenStore { tokens: Vec::new(), sequences: Vec::new() }
    }

    /// Whether a report counts.
    pub fn sequence_is_fresh(&self, source: &str, seq: Option<u64>) -> (r: bool)
        ensures
            r == is_fresh(self.sequences@, source@, seq),
    {
        match (seq, find_source(&self.sequences, source)) {
            (Some(n), Some(i)) => n > self.sequences[i].seq,
            _ => true,
        }
    }

    /// Remember a report's number: whether the report counts, or an error where there is no room to
    /// remember its producer.
    pub fn accept_sequence(&mut self, source: &str, seq: Option<u64>) -> (r: Result<bool, ()>)
        ensures
            final(self).tokens == old(self).tokens,
            match r {
                Ok(true) => is_fresh(old(self).sequences@, source@, seq) && !sources_full(
                    old(self).sequences@,
                    source@,
                    seq,
                ) && remembered(old(self).sequences@, final(self).sequences@, source@, seq),
                Ok(false) => !is_fresh(old(self).sequences@, source@, seq) && *final(self) == *old(
                    self,
                ),
                Err(()) => sources_full(old(self).sequences@, source@, seq) && *final(self) == *old(
                    self,
                ),
            },
    {
        let n: u64 = match seq {
            Some(n) => n,
            None => {
                return Ok(true);
            },
        };
        match find_source(&self.sequences, source) {
            Some(i) => {
                if n > self.sequences[i].seq {
                    let source = self.sequences[i].source.clone();
                    self.sequences.set(i, SourceSequence { source, seq: n });
                    Ok(true)
                } else {
                    Ok(false)
                }
            },
            None => {
                if self.sequences.len() >= MAX_SEQUENCE_SOURCES {
                    return Err(());
                }
                self.sequences.push(SourceSequence { source: source.to_owned(), seq: n });
                Ok(true)
            },
        }
    }

    /// Take a report in: whether a token changed, or why it was refused.
    pub fn report(&mut self, report: &MetadataReport, owner: &str, now: u64) -> (r: Result<
        bool,
        ApiError,
    >)
        requires
            old(self).wf(),
        ensures
            final(self).wf(),
            report_outcome(
                *old(self),
                *final(self),
                *report,
                owner@,
                now,
                r matches Ok(true),
                match r {
                    Ok(_) => None,
                    Err(e) => Some(e@),
                },
            ),
    {
        let source = match normalize_metadata_source(report.source.as_str()) {
            Ok(source) => source,
            Err(e) => {
                return Err(e);
            },
        };
        let ttl: Option<u64> = match normalize_metadata_ttl(report.ttl_ms) {
            Ok(ttl) => ttl,
            Err(e) => {
                return Err(e);
            },
        };
        let tokens = match normalize_metadata_tokens(&report.tokens) {
            Ok(tokens) => tokens,
            Err(e) => {
                return Err(e);
            },
        };
        let ghost kept = tokens@;
        proof {
            assert(are_kept_tokens(kept, report.tokens@));
            assert(report_problem(*report) is None);
        }
        if !self.sequence_is_fresh(source.as_str(), report.seq) {
            return Ok(false);
        }
        let expires_at: Option<u64> = match ttl {
            Some(ttl) => now.checked_add(ttl),
            None => None,
        };
        let (next, changed) = apply_patch(&self.tokens, &tokens, expires_at);
        proof {
            assert(expires_at == expires(now, report.ttl_ms));
            lemma_patched_wf(self.tokens@, kept, expires_at);
        }
        if next.len() > MAX_KEYS_PER_RESOURCE {
            let mut message = join3(
                owner,
                " metadata may contain at most ",
                decimal_text(MAX_KEYS_PER_RESOURCE as u64).as_str(),
            );
            message.append(" tokens");
            return Err(ApiError { code: "metadata_token_limit", message });
        }
        match self.accept_sequence(source.as_str(), report.seq) {
            Ok(true) => {},
            Ok(false) => {
                return Ok(false);
            },
            Err(()) => {
                let mut message = join3(
                    owner,
                    " metadata may track at most ",
                    decimal_text(MAX_SEQUENCE_SOURCES as u64).as_str(),
                );
                message.append(" sequenced sources");
                return Err(ApiError { code: "metadata_sequence_source_limit", message });
            },
        }
        self.tokens = next;
        Ok(changed)
    }

    /// Let the tokens go whose time is up: whether there were any. Sequence numbers stay.
    #[verifier::loop_isolation(false)]
    pub fn expire(&mut self, now: u64) -> (r: bool)
        requires
            old(self).wf(),
        ensures
            final(self).tokens@ == unexpired(old(self).tokens@, now),
            final(self).sequences == old(self).sequences,
            r == (final(self).tokens@.len() != old(self).tokens@.len()),
            final(self).wf(),
    {
        let ghost p = |t: Token| !(t.expires_at matches Some(at) && at <= now);
        let total: usize = self.tokens.len();
        let mut keep: Vec<bool> = Vec::new();
        let mut i: usize = 0;
        while i < self.tokens.len()
            invariant
                i <= self.tokens@.len(),
                keep@.len() == i,
                forall|j: int| 0 <= j < i ==> #[trigger] keep@[j] == p(self.tokens@[j]),
            decreases self.tokens@.len() - i,
        {
            keep.push(
                match self.tokens[i].expires_at {
                    Some(at) => at > now,
                    None => true,
                },
            );
            i = i + 1;
        }
        proof {
            lemma_filter_keeps_keys_distinct(self.tokens@, p);
        }
        retain_marked(&mut self.tokens, &keep, Ghost(p));
        self.tokens.len() != total
    }

    /// When the next token expires.
    pub fn next_expiry(&self) -> (r: Option<u64>)
        ensures
            r == expiry(self.tokens@),
    {
        let mut best: Option<u64> = None;
        let mut i: usize = 0;
        while i < self.tokens.len()
            invariant
                i <= self.tokens@.len(),
                best == expiry(self.tokens@.take(i as int)),
            decreases self.tokens@.len() - i,
        {
            proof {
                assert(self.tokens@.take(i + 1).drop_last() =~= self.tokens@.take(i as int));
            }
            best = match (best, self.tokens[i].expires_at) {
                (Some(x), Some(y)) => if x <= y {
                    Some(x)
                } else {
                    Some(y)
                },
                (Some(x), None) => Some(x),
                (None, y) => y,
            };
            i = i + 1;
        }
        proof {
            assert(self.tokens@.take(i as int) =~= self.tokens@);
        }
        best
    }

    /// What a key reads as.
    pub fn value(&self, key: &str) -> (r: Option<&String>)
        ensures
            match r {
                Some(v) => value_of(self.tokens@, key@) == Some(v@),
                None => value_of(self.tokens@, key@) is None,
            },
    {
        match find_token(&self.tokens, key) {
            Some(i) => Some(&self.tokens[i].value),
            None => None,
        }
    }
}

// ---------------------------------------------------------------------------------------------
// Laws
// ---------------------------------------------------------------------------------------------

/// A refused report leaves tokens and sequence numbers as they were, and so does a stale one.
pub proof fn law_refused_or_stale_reports_change_nothing(
    old: TokenStore,
    new: TokenStore,
    report: MetadataReport,
    owner: Seq<char>,
    now: u64,
    changed: bool,
    refused: Option<Refusal>,
)
    requires
        report_outcome(old, new, report, owner, now, changed, refused),
        refused is Some || !is_fresh(old.sequences@, trimmed(report.source@), report.seq),
    ensures
        new == old,
        !changed,
{
}

proof fn lemma_source_at(sequences: Seq<SourceSequence>, source: Seq<char>)
    ensures
        match source_at(sequences, source) {
            Some(i) => 0 <= i < sequences.len() && sequences[i].source@ == source && forall|j: int|
                0 <= j < i ==> (#[trigger] sequences[j]).source@ != source,
            None => forall|j: int|
                0 <= j < sequences.len() ==> (#[trigger] sequences[j]).source@ != source,
        },
{
    broadcast use lemma_first_where;
}

/// Once a producer has reported under a number, neither that report nor an earlier one counts
/// again, whatever was cleared or expired meanwhile.
pub proof fn law_accepted_numbers_are_not_accepted_again(
    before: Seq<SourceSequence>,
    after: Seq<SourceSequence>,
    source: Seq<char>,
    seq: u64,
    again: u64,
)
    requires
        is_fresh(before, source, Some(seq)),
        remembered(before, after, source, Some(seq)),
        again <= seq,
    ensures
        last_seq(after, source) == Some(seq),
        !is_fresh(after, source, Some(again)),
{
    lemma_source_at(before, source);
    lemma_source_at(after, source);
    match source_at(before, source) {
        Some(i) => {
            assert(after[i].source@ == source);
            let k = source_at(after, source)->Some_0;
            if k < i {
                assert(after[k] == before[k]);
            }
        },
        None => {
            let n = before.len() as int;
            assert(after[n] == after.last());
            let k = source_at(after, source)->Some_0;
            if k < n {
                assert(after[k] == before[k]);
            }
        },
    }
}

/// One producer's numbers are no concern of another's.
pub proof fn law_sequences_are_per_source(
    before: Seq<SourceSequence>,
    after: Seq<SourceSequence>,
    source: Seq<char>,
    seq: Option<u64>,
    other: Seq<char>,
)
    requires
        remembered(before, after, source, seq),
        other != source,
    ensures
        last_seq(after, other) == last_seq(before, other),
{
    lemma_source_at(before, source);
    lemma_source_at(before, other);
    lemma_source_at(after, other);
    if seq is Some {
        let n = before.len() as int;
        assert forall|j: int| 0 <= j < n implies (#[trigger] after[j]).source@
            == before[j].source@ by {}
        if source_at(before, source) is None {
            assert(after[n] == after.last());
        }
        match source_at(before, other) {
            Some(k) => {
                assert(after[k].source@ == other);
                let m = source_at(after, other)->Some_0;
                if m < k {
                    assert(before[m].source@ != other);
                }
                assert(m == k);
            },
            None => {
                if source_at(after, other) is Some {
                    let m = source_at(after, other)->Some_0;
                    if m < n {
                        assert(before[m].source@ != other);
                    }
                }
            },
        }
    }
}

/// A refused report leaves its number free: a valid report under the same number, from a producer
/// for whose number there is room, is taken in as if the refused one had never come. `kept` are its
/// tokens with the values that are kept.
pub proof fn law_a_refused_report_leaves_its_number_free(
    before: TokenStore,
    between: TokenStore,
    after: TokenStore,
    refused_report: MetadataReport,
    report: MetadataReport,
    owner: Seq<char>,
    now: u64,
    later: u64,
    changed_first: bool,
    changed: bool,
    first_refusal: Refusal,
    refused: Option<Refusal>,
)
    requires
        report_outcome(
            before,
            between,
            refused_report,
            owner,
            now,
            changed_first,
            Some(first_refusal),
        ),
        report_problem(report) is None,
        report.seq == refused_report.seq,
        is_fresh(before.sequences@, trimmed(report.source@), report.seq),
        !sources_full(before.sequences@, trimmed(report.source@), report.seq),
        report_outcome(between, after, report, owner, later, changed, refused),
    ensures
        between == before,
        !changed_first,
        exists|kept: Seq<TokenPatch>| #[trigger]
            are_kept_tokens(kept, report.tokens@) && {
                let at = expires(later, report.ttl_ms);
                patched(before.tokens@, kept, at).len() <= MAX_KEYS_PER_RESOURCE ==> {
                    &&& refused is None
                    &&& changed == patch_changes(before.tokens@, kept, at)
                    &&& after.tokens@ == patched(before.tokens@, kept, at)
                    &&& remembered(
                        before.sequences@,
                        after.sequences@,
                        trimmed(report.source@),
                        report.seq,
                    )
                }
            },
{
    let kept = choose|kept: Seq<TokenPatch>| #[trigger]
        are_kept_tokens(kept, report.tokens@) && reported(
            between,
            after,
            report,
            kept,
            owner,
            later,
            changed,
            refused,
        );
    assert(are_kept_tokens(kept, report.tokens@));
}

/// Something that happens to a store of tokens: a report, which may set tokens, clear them, be
/// stale or be refused; or the expiry of tokens.
pub ghost enum StoreStep {
    Report {
        report: MetadataReport,
        owner: Seq<char>,
        now: u64,
        changed: bool,
        refused: Option<Refusal>,
    },
    Expire { now: u64 },
}

pub open spec fn step_taken(before: TokenStore, after: TokenStore, step: StoreStep) -> bool {
    match step {
        StoreStep::Report { report, owner, now, changed, refused } => report_outcome(
            before,
            after,
            report,
            owner,
            now,
            changed,
            refused,
        ),
        StoreStep::Expire { now } => after.tokens@ == unexpired(before.tokens@, now)
            && after.sequences == before.sequences,
    }
}

/// The stores that some steps lead through, one after another.
pub open spec fn is_course(stores: Seq<TokenStore>, steps: Seq<StoreStep>) -> bool {
    &&& stores.len() == steps.len() + 1
    &&& forall|i: int|
        0 <= i < steps.len() ==> #[trigger] step_taken(stores[i], stores[i + 1], steps[i])
}

/// A number that was accepted from a producer is not forgotten, nor replaced by a lower one.
pub proof fn lemma_numbers_only_grow(
    stores: Seq<TokenStore>,
    steps: Seq<StoreStep>,
    source: Seq<char>,
    least: u64,
)
    requires
        is_course(stores, steps),
        last_seq(stores[0].sequences@, source) matches Some(n) && n >= least,
    ensures
        last_seq(stores.last().sequences@, source) matches Some(n) && n >= least,
    decreases steps.len(),
{
    if steps.len() > 0 {
        let k = steps.len() - 1;
        let head = stores.drop_last();
        assert forall|i: int| 0 <= i < steps.drop_last().len() implies #[trigger] step_taken(
            head[i],
            head[i + 1],
            steps.drop_last()[i],
        ) by {
            assert(step_taken(stores[i], stores[i + 1], steps[i]));
        }
        lemma_numbers_only_grow(head, steps.drop_last(), source, least);
        assert(head.last() == stores[k]);
        assert(stores.last() == stores[k + 1]);
        assert(step_taken(stores[k], stores[k + 1], steps[k]));
        match steps[k] {
            StoreStep::Report { report, owner, now, changed, refused } => {
                let from = trimmed(report.source@);
                let a = stores[k].sequences@;
                let b = stores[k + 1].sequences@;
                if report_problem(report) is None {
                    let kept = choose|kept: Seq<TokenPatch>| #[trigger]
                        are_kept_tokens(kept, report.tokens@) && reported(
                            stores[k],
                            stores[k + 1],
                            report,
                            kept,
                            owner,
                            now,
                            changed,
                            refused,
                        );
                    if is_fresh(a, from, report.seq) && remembered(a, b, from, report.seq) {
                        if from != source {
                            law_sequences_are_per_source(a, b, from, report.seq, source);
                        } else if report.seq is Some {
                            let n = report.seq->Some_0;
                            law_accepted_numbers_are_not_accepted_again(a, b, from, n, n);
                        }
                    }
                }
            },
            StoreStep::Expire { .. } => {},
        }
    } else {
        assert(stores.last() == stores[0]);
    }
}

/// Once a producer's report under a number was accepted, a valid report of it under that number or
/// a lower one is answered with success and changes nothing, whatever came between: reports of this
/// producer and of others, numbered or not, clears, refusals and expiries.
pub proof fn law_an_accepted_number_stays_stale(
    before: TokenStore,
    stores: Seq<TokenStore>,
    steps: Seq<StoreStep>,
    after: TokenStore,
    first: MetadataReport,
    report: MetadataReport,
    owner: Seq<char>,
    now: u64,
    later: u64,
    changed_first: bool,
    changed: bool,
    refused: Option<Refusal>,
    accepted: u64,
    again: u64,
)
    requires
        report_problem(first) is None,
        first.seq == Some(accepted),
        is_fresh(before.sequences@, trimmed(first.source@), Some(accepted)),
        is_course(stores, steps),
        report_outcome(before, stores[0], first, owner, now, changed_first, None),
        report_problem(report) is None,
        trimmed(report.source@) == trimmed(first.source@),
        report.seq == Some(again),
        again <= accepted,
        report_outcome(stores.last(), after, report, owner, later, changed, refused),
    ensures
        refused is None,
        !changed,
        after == stores.last(),
{
    let source = trimmed(first.source@);
    let kept = choose|kept: Seq<TokenPatch>| #[trigger]
        are_kept_tokens(kept, first.tokens@) && reported(
            before,
            stores[0],
            first,
            kept,
            owner,
            now,
            changed_first,
            None,
        );
    law_accepted_numbers_are_not_accepted_again(
        before.sequences@,
        stores[0].sequences@,
        source,
        accepted,
        accepted,
    );
    lemma_numbers_only_grow(stores, steps, source, accepted);
    assert(!is_fresh(stores.last().sequences@, source, report.seq));
}

/// However many reports are taken in, the number of tokens stays within its limit.
pub proof fn law_token_count_stays_within_its_limit(
    old: TokenStore,
    new: TokenStore,
    report: MetadataReport,
    owner: Seq<char>,
    now: u64,
    changed: bool,
    refused: Option<Refusal>,
)
    requires
        report_outcome(old, new, report, owner, now, changed, refused),
        old.tokens@.len() <= MAX_KEYS_PER_RESOURCE,
    ensures
        new.tokens@.len() <= MAX_KEYS_PER_RESOURCE,
{
}

/// A token that a patch sets reads back as the value it was set to, and one that it clears is
/// gone.
pub proof fn law_a_patched_token_reads_back(
    tokens: Seq<Token>,
    p: TokenPatch,
    expires_at: Option<u64>,
)
    requires
        distinct_keys(tokens),
    ensures
        value_of(patched_by(tokens, p, expires_at), p.key@) == opt(p.value),
{
    let q = |t: Token| t.key@ == p.key@;
    let next = patched_by(tokens, p, expires_at);
    lemma_first_where(tokens, q);
    lemma_first_where(next, q);
    match token_at(tokens, p.key@) {
        Some(i) => match p.value {
            Some(_) => {
                assert forall|j: int| 0 <= j < i implies !q(#[trigger] next[j]) by {
                    assert(!q(tokens[j]));
                }
                lemma_is_first(next, q, i);
            },
            None => {
                assert forall|j: int| 0 <= j < next.len() implies !q(#[trigger] next[j]) by {
                    if j < i {
                        assert(!q(tokens[j]));
                    } else {
                        assert(tokens[i].key@ != tokens[j + 1].key@);
                    }
                }
            },
        },
        None => match p.value {
            Some(_) => {
                assert forall|j: int| 0 <= j < tokens.len() implies !q(#[trigger] next[j]) by {
                    assert(!q(tokens[j]));
                }
                lemma_is_first(next, q, tokens.len() as int);
            },
            None => {},
        },
    }
}

/// A value that is kept is not empty and not long.
pub proof fn law_kept_values_are_short(value: Option<Seq<char>>)
    ensures
        kept_value(value) matches Some(v) ==> 0 < v.len() <= MAX_VALUE_CHARS,
{
}

} // verus!
