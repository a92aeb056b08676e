use vstd::prelude::*;
use vstd::string::*;
use crate::keys::{ModifierKey, Platform, ascii_lower};

verus! {

/// The tokens of a key expression: the text between `+` separators.
pub open spec fn split_plus(s: Seq<char>) -> Seq<Seq<char>>
    decreases s.len(),
{
    if s.len() == 0 {
        seq![Seq::empty()]
    } else {
        let prev = split_plus(s.drop_last());
        if s.last() == '+' {
            prev.push(Seq::empty())
        } else {
            prev.update(prev.len() - 1, prev.last().push(s.last()))
        }
    }
}

pub open spec fn lower_seq(t: Seq<char>) -> Seq<char> {
    t.map_values(|c: char| ascii_lower(c))
}

/// The modifier that a token names, compared case-insensitively.
pub open spec fn modifier_of(tok: Seq<char>, platform: Platform) -> Option<ModifierKey> {
    let t = lower_seq(tok);
    if t == seq!['s', 'h', 'i', 'f', 't'] {
        Some(ModifierKey::Shift)
    } else if t == seq!['c', 't', 'r', 'l'] || t == seq!['c', 'o', 'n', 't', 'r', 'o', 'l'] {
        if platform == Platform::MacOs {
            Some(ModifierKey::Meta)
        } else {
            Some(ModifierKey::Control)
        }
    } else if t == seq!['a', 'l', 't'] {
        Some(ModifierKey::Alt)
    } else if t == seq!['m', 'e', 't', 'a'] || t == seq!['c', 'm', 'd'] || t == seq![
        'c',
        'o',
        'm',
        'm',
        'a',
        'n',
        'd',
    ] || t == seq!['w', 'i', 'n'] || t == seq!['s', 'u', 'p', 'e', 'r'] {
        Some(ModifierKey::Meta)
    } else {
        None
    }
}

/// The index of the first token that names no modifier.
pub open spec fn first_unknown(toks: Seq<Seq<char>>, platform: Platform) -> Option<int>
    decreases toks.len(),
{
    if toks.len() == 0 {
        None
    } else {
        match first_unknown(toks.drop_last(), platform) {
            Some(j) => Some(j),
            None => if modifier_of(toks.last(), platform) is None {
                Some(toks.len() - 1)
            } else {
                None
            },
        }
    }
}

/// What is wrong with a key expression, over the offending token.
pub enum ParseFailure {
    UnknownModifier(Seq<char>),
    InvalidMainKey(Seq<char>),
}

/// A key expression's modifiers in written order and its main key.
pub open spec fn parse_expr(s: Seq<char>, platform: Platform) -> Result<
    (Seq<ModifierKey>, char),
    ParseFailure,
> {
    let toks = split_plus(s);
    let mods = toks.drop_last();
    let last = toks.last();
    match first_unknown(mods, platform) {
        Some(j) => Err(ParseFailure::UnknownModifier(mods[j])),
        None => if last.len() == 1 {
            Ok((mods.map_values(|t: Seq<char>| modifier_of(t, platform).unwrap()), last[0]))
        } else {
            Err(ParseFailure::InvalidMainKey(last))
        },
    }
}

/// A parsed key expression.
#[derive(Debug)]
pub struct ParsedKey {
    pub modifiers: Vec<ModifierKey>,
    pub main_key: Option<char>,
}

/// Why a key expression was refused; each variant holds the offending token.
#[derive(Debug)]
pub enum KeyParseError {
    UnknownModifier(String),
    InvalidMainKey(String),
}

impl View for KeyParseError {
    type V = ParseFailure;

    open spec fn view(&self) -> ParseFailure {
        match self {
            KeyParseError::UnknownModifier(t) => ParseFailure::UnknownModifier(t@),
            KeyParseError::InvalidMainKey(t) => ParseFailure::InvalidMainKey(t@),
        }
    }
}

pub proof fn lemma_split_nonempty(s: Seq<char>)
    ensures
        split_plus(s).len() >= 1,
    decreases s.len(),
{
    if s.len() > 0 {
        lemma_split_nonempty(s.drop_last());
    }
}

/// The spans of the tokens of `s`, as character positions.
fn split_spans(s: &str) -> (r: Vec<(usize, usize)>)
    ensures
        r@.len() == split_plus(s@).len(),
        forall|k: int|
            #![trigger r@[k]]
            0 <= k < r@.len() ==> {
                &&& r@[k].0 <= r@[k].1 <= s@.len()
                &&& s@.subrange(r@[k].0 as int, r@[k].1 as int) == split_plus(s@)[k]
            },
{
    let n = s.unicode_len();
    let mut spans: Vec<(usize, usize)> = Vec::new();
    let mut start: usize = 0;
    let mut i: usize = 0;
    proof {
        assert(s@.take(0) =~= Seq::<char>::empty());
    }
    while i < n
        invariant
            n == s@.len(),
            start <= i <= n,
            spans@.len() + 1 == split_plus(s@.take(i as int)).len(),
            s@.subrange(start as int, i as int) == split_plus(s@.take(i as int)).last(),
            forall|k: int|
                #![trigger spans@[k]]
                0 <= k < spans@.len() ==> {
                    &&& spans@[k].0 <= spans@[k].1 <= i
                    &&& s@.subrange(spans@[k].0 as int, spans@[k].1 as int) == split_plus(
                        s@.take(i as int),
                    )[k]
                },
        decreases n - i,
    {
        let c = s.get_char(i);
        let ghost prev = split_plus(s@.take(i as int));
        proof {
            lemma_split_nonempty(s@.take(i as int));
            assert(s@.take(i + 1).drop_last() =~= s@.take(i as int));
            assert(s@.take(i + 1).last() == c);
        }
        let ghost old_spans = spans;
        if c == '+' {
            spans.push((start, i));
            start = i + 1;
            proof {
                assert(s@.subrange(start as int, i + 1) =~= Seq::<char>::empty());
                assert(split_plus(s@.take(i + 1)) == prev.push(Seq::empty()));
                assert forall|k: int| 0 <= k < spans@.len() implies {
                    &&& spans@[k].0 <= spans@[k].1 <= i + 1
                    &&& s@.subrange(spans@[k].0 as int, spans@[k].1 as int) == split_plus(
                        s@.take(i + 1),
                    )[k]
                } by {
                    if k < spans@.len() - 1 {
                        assert(spans@[k] == old_spans@[k]);
                    }
                }
            }
        } else {
            proof {
                assert(s@.subrange(start as int, i + 1) =~= s@.subrange(start as int, i as int).push(c));
                assert forall|k: int| 0 <= k < spans@.len() implies {
                    &&& spans@[k].0 <= spans@[k].1 <= i + 1
                    &&& s@.subrange(spans@[k].0 as int, spans@[k].1 as int) == split_plus(
                        s@.take(i + 1),
                    )[k]
                } by {
                    assert(split_plus(s@.take(i + 1)) == prev.update(
                    prev.len() - 1,
                    prev.last().push(c),
                ));
                assert(split_plus(s@.take(i + 1))[k] == prev[k]);
                }
            }
        }
        i = i + 1;
    }
    proof {
        assert(s@.take(n as int) =~= s@);
    }
    let ghost old_spans = spans;
    spans.push((start, n));
    proof {
        assert forall|k: int| 0 <= k < spans@.len() implies {
            &&& spans@[k].0 <= spans@[k].1 <= s@.len()
            &&& s@.subrange(spans@[k].0 as int, spans@[k].1 as int) == split_plus(s@)[k]
        } by {
            if k < spans@.len() - 1 {
                assert(spans@[k] == old_spans@[k]);
            }
        }
    }
    spans
}

/// Whether the characters `a..b` of `s`, lower-cased, spell `w`.
fn lower_token_is(s: &str, a: usize, b: usize, w: &str) -> (r: bool)
    requires
        a <= b <= s@.len(),
    ensures
        r == (lower_seq(s@.subrange(a as int, b as int)) == w@),
{
    let ghost t = s@.subrange(a as int, b as int);
    let n = w.unicode_len();
    if b - a != n {
        proof {
            assert(lower_seq(t).len() != w@.len());
        }
        return false;
    }
    let mut j: usize = 0;
    while j < n
        invariant
            a <= b <= s@.len(),
            b - a == n == w@.len(),
            t == s@.subrange(a as int, b as int),
            j <= n,
            forall|m: int| 0 <= m < j ==> ascii_lower(t[m]) == w@[m],
        decreases n - j,
    {
        let c = crate::keys::to_ascii_lower(s.get_char(a + j));
        if c != w.get_char(j) {
            proof {
                assert(lower_seq(t)[j as int] != w@[j as int]);
            }
            return false;
        }
        j = j + 1;
    }
    proof {
        assert(lower_seq(t) =~= w@);
    }
    true
}

/// The modifier that the characters `a..b` of `s` name.
fn modifier_in(s: &str, a: usize, b: usize, platform: Platform) -> (r: Option<ModifierKey>)
    requires
        a <= b <= s@.len(),
    ensures
        r == modifier_of(s@.subrange(a as int, b as int), platform),
{
    proof {
        reveal_strlit("shift");
        reveal_strlit("ctrl");
        reveal_strlit("control");
        reveal_strlit("alt");
        reveal_strlit("meta");
        reveal_strlit("cmd");
        reveal_strlit("command");
        reveal_strlit("win");
        reveal_strlit("super");
        assert("shift"@ =~= seq!['s', 'h', 'i', 'f', 't']);
        assert("ctrl"@ =~= seq!['c', 't', 'r', 'l']);
        assert("control"@ =~= seq!['c', 'o', 'n', 't', 'r', 'o', 'l']);
        assert("alt"@ =~= seq!['a', 'l', 't']);
        assert("meta"@ =~= seq!['m', 'e', 't', 'a']);
        assert("cmd"@ =~= seq!['c', 'm', 'd']);
        assert("command"@ =~= seq!['c', 'o', 'm', 'm', 'a', 'n', 'd']);
        assert("win"@ =~= seq!['w', 'i', 'n']);
        assert("super"@ =~= seq!['s', 'u', 'p', 'e', 'r']);
    }
    if lower_token_is(s, a, b, "shift") {
        Some(ModifierKey::Shift)
    } else if lower_token_is(s, a, b, "ctrl") || lower_token_is(s, a, b, "control") {
        match platform {
            Platform::MacOs => Some(ModifierKey::Meta),
            Platform::Other => Some(ModifierKey::Control),
        }
    } else if lower_token_is(s, a, b, "alt") {
        Some(ModifierKey::Alt)
    } else if lower_token_is(s, a, b, "meta") || lower_token_is(s, a, b, "cmd")
        || lower_token_is(s, a, b, "command") || lower_token_is(s, a, b, "win")
        || lower_token_is(s, a, b, "super") {
        Some(ModifierKey::Meta)
    } else {
        None
    }
}

/// Parses a key expression such as `shift+a` or `ctrl+c`: every token but the
/// last names a modifier, the last is the main key and must be one character.
pub fn parse_key_string(key_str: &str, platform: Platform) -> (r: Result<ParsedKey, KeyParseError>)
    ensures
        match parse_expr(key_str@, platform) {
            Ok((mods, main)) => r matches Ok(pk) && pk.modifiers@ == mods && pk.main_key == Some(
                main,
            ),
            Err(f) => r matches Err(e) && e@ == f,
        },
{
    let spans = split_spans(key_str);
    proof {
        lemma_split_nonempty(key_str@);
    }
    let ghost toks = split_plus(key_str@);
    let ghost mods_spec = toks.drop_last();
    let n_mods = spans.len() - 1;
    let mut modifiers: Vec<ModifierKey> = Vec::new();
    let mut k: usize = 0;
    proof {
        assert(mods_spec.take(0) =~= Seq::<Seq<char>>::empty());
    }
    while k < n_mods
        invariant
            n_mods + 1 == spans@.len() == toks.len(),
            toks == split_plus(key_str@),
            mods_spec == toks.drop_last(),
            k <= n_mods,
            forall|q: int|
                #![trigger spans@[q]]
                0 <= q < spans@.len() ==> {
                    &&& spans@[q].0 <= spans@[q].1 <= key_str@.len()
                    &&& key_str@.subrange(spans@[q].0 as int, spans@[q].1 as int) == toks[q]
                },
            first_unknown(mods_spec.take(k as int), platform) is None,
            modifiers@ == mods_spec.take(k as int).map_values(
                |t: Seq<char>| modifier_of(t, platform).unwrap(),
            ),
        decreases n_mods - k,
    {
        let (a, b) = spans[k];
        let m = modifier_in(key_str, a, b, platform);
        proof {
            assert(mods_spec.take(k + 1).drop_last() =~= mods_spec.take(k as int));
            assert(mods_spec.take(k + 1).last() == toks[k as int]);
        }
        match m {
            None => {
                proof {
                    lemma_first_unknown_prefix(mods_spec, k + 1, platform);
                }
                let tok = String::from_str(key_str.substring_char(a, b));
                return Err(KeyParseError::UnknownModifier(tok));
            },
            Some(md) => {
                modifiers.push(md);
                proof {
                    assert(modifiers@ =~= mods_spec.take(k + 1).map_values(
                        |t: Seq<char>| modifier_of(t, platform).unwrap(),
                    ));
                }
            },
        }
        k = k + 1;
    }
    proof {
        assert(mods_spec.take(n_mods as int) =~= mods_spec);
    }
    let (a, b) = spans[n_mods];
    if b - a == 1 {
        let main = key_str.get_char(a);
        Ok(ParsedKey { modifiers, main_key: Some(main) })
    } else {
        let tok = String::from_str(key_str.substring_char(a, b));
        Err(KeyParseError::InvalidMainKey(tok))
    }
}

/// Where a prefix of the tokens holds an unknown one, the first unknown token
/// of the whole sequence is the same.
pub proof fn lemma_first_unknown_prefix(toks: Seq<Seq<char>>, k: int, platform: Platform)
    requires
        0 <= k <= toks.len(),
        first_unknown(toks.take(k), platform) is Some,
    ensures
        first_unknown(toks, platform) == first_unknown(toks.take(k), platform),
    decreases toks.len() - k,
{
    if k < toks.len() {
        assert(toks.take(k + 1).drop_last() =~= toks.take(k));
        lemma_first_unknown_prefix(toks, k + 1, platform);
    } else {
        assert(toks.take(k) =~= toks);
    }
}

/// Tokens joined with `+` between them.
pub open spec fn join_plus(toks: Seq<Seq<char>>) -> Seq<char>
    decreases toks.len(),
{
    if toks.len() == 0 {
        Seq::empty()
    } else if toks.len() == 1 {
        toks[0]
    } else {
        join_plus(toks.drop_last()) + seq!['+'] + toks.last()
    }
}

pub open spec fn has_no_plus(t: Seq<char>) -> bool {
    forall|i: int| 0 <= i < t.len() ==> t[i] != '+'
}

proof fn lemma_split_single(b: Seq<char>)
    requires
        has_no_plus(b),
    ensures
        split_plus(b) == seq![b],
    decreases b.len(),
{
    if b.len() == 0 {
        assert(b =~= Seq::<char>::empty());
    } else {
        lemma_split_single(b.drop_last());
        assert(b.drop_last().push(b.last()) =~= b);
        assert(seq![b.drop_last()].update(0, b.drop_last().push(b.last())) =~= seq![b]);
    }
}

proof fn lemma_split_append(a: Seq<char>, b: Seq<char>)
    requires
        has_no_plus(b),
    ensures
        split_plus(a + seq!['+'] + b) == split_plus(a).push(b),
    decreases b.len(),
{
    let s = a + seq!['+'] + b;
    if b.len() == 0 {
        assert(s.drop_last() =~= a);
        assert(b =~= Seq::<char>::empty());
    } else {
        let b0 = b.drop_last();
        lemma_split_append(a, b0);
        assert(s.drop_last() =~= a + seq!['+'] + b0);
        assert(b0.push(b.last()) =~= b);
        let prev = split_plus(a).push(b0);
        assert(prev.update(prev.len() - 1, prev.last().push(b.last())) =~= split_plus(a).push(b));
    }
}

proof fn lemma_split_join(toks: Seq<Seq<char>>)
    requires
        toks.len() >= 1,
        forall|i: int| 0 <= i < toks.len() ==> has_no_plus(#[trigger] toks[i]),
    ensures
        split_plus(join_plus(toks)) == toks,
    decreases toks.len(),
{
    if toks.len() == 1 {
        lemma_split_single(toks[0]);
        assert(seq![toks[0]] =~= toks);
    } else {
        let init = toks.drop_last();
        assert forall|i: int| 0 <= i < init.len() implies has_no_plus(#[trigger] init[i]) by {
            assert(init[i] == toks[i]);
        }
        lemma_split_join(init);
        lemma_split_append(join_plus(init), toks.last());
        assert(init.push(toks.last()) =~= toks);
    }
}

proof fn lemma_modifier_has_no_plus(t: Seq<char>, platform: Platform)
    requires
        modifier_of(t, platform) is Some,
    ensures
        has_no_plus(t),
{
    assert forall|i: int| 0 <= i < t.len() implies t[i] != '+' by {
        let l = lower_seq(t);
        assert(l[i] == ascii_lower(t[i]));
        let words = seq![
            seq!['s', 'h', 'i', 'f', 't'],
            seq!['c', 't', 'r', 'l'],
            seq!['c', 'o', 'n', 't', 'r', 'o', 'l'],
            seq!['a', 'l', 't'],
            seq!['m', 'e', 't', 'a'],
            seq!['c', 'm', 'd'],
            seq!['c', 'o', 'm', 'm', 'a', 'n', 'd'],
            seq!['w', 'i', 'n'],
            seq!['s', 'u', 'p', 'e', 'r'],
        ];
        assert(exists|w: int| 0 <= w < words.len() && l == words[w]);
        let w = choose|w: int| 0 <= w < words.len() && l == words[w];
        assert(l[i] != '+') by {
            if w == 0 || w == 8 {
                assert(0 <= i < 5);
            } else if w == 1 || w == 4 {
                assert(0 <= i < 4);
            } else if w == 2 || w == 6 {
                assert(0 <= i < 7);
            } else {
                assert(0 <= i < 3);
            }
        }
    }
}

proof fn lemma_all_known(toks: Seq<Seq<char>>, platform: Platform)
    requires
        forall|i: int| 0 <= i < toks.len() ==> (#[trigger] modifier_of(toks[i], platform)) is Some,
    ensures
        first_unknown(toks, platform) is None,
    decreases toks.len(),
{
    if toks.len() > 0 {
        let init = toks.drop_last();
        assert forall|i: int| 0 <= i < init.len() implies (#[trigger] modifier_of(init[i], platform)) is Some by {
            assert(init[i] == toks[i]);
        }
        lemma_all_known(init, platform);
        assert(modifier_of(toks[toks.len() - 1], platform) is Some);
    }
}

/// Recognised modifier tokens joined by `+` and followed by one character
/// other than `+` parse to those modifiers, in written order, and that
/// character as the main key; tokens are matched case-insensitively.
pub proof fn lemma_parse_modifier_chain(mods: Seq<Seq<char>>, main: char, platform: Platform)
    requires
        forall|i: int| 0 <= i < mods.len() ==> (#[trigger] modifier_of(mods[i], platform)) is Some,
        main != '+',
    ensures
        parse_expr(join_plus(mods.push(seq![main])), platform) == Ok::<
            (Seq<ModifierKey>, char),
            ParseFailure,
        >((mods.map_values(|t: Seq<char>| modifier_of(t, platform).unwrap()), main)),
{
    let toks = mods.push(seq![main]);
    assert forall|i: int| 0 <= i < toks.len() implies has_no_plus(#[trigger] toks[i]) by {
        if i < mods.len() {
            assert(toks[i] == mods[i]);
            lemma_modifier_has_no_plus(mods[i], platform);
        } else {
            assert(toks[i] == seq![main]);
        }
    }
    lemma_split_join(toks);
    assert(toks.drop_last() =~= mods);
    lemma_all_known(mods, platform);
}

/// A single character other than `+` parses to no modifiers and that
/// character as the main key.
pub proof fn lemma_parse_single_char(c: char, platform: Platform)
    requires
        c != '+',
    ensures
        parse_expr(seq![c], platform) == Ok::<(Seq<ModifierKey>, char), ParseFailure>(
            (Seq::empty(), c),
        ),
{
    lemma_split_single(seq![c]);
    let toks = split_plus(seq![c]);
    assert(toks.drop_last() =~= Seq::<Seq<char>>::empty());
    assert(toks.drop_last().map_values(|t: Seq<char>| modifier_of(t, platform).unwrap())
        =~= Seq::<ModifierKey>::empty());
}

} // verus!
