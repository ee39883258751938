//! Keybinding model and parser.
//!
//! Bindings are written as strings like `"Super+Return"` or `"Super+Shift+Q"`:
//! a `+`-separated list of modifiers and exactly one key name. Tokens are
//! trimmed and matched case-insensitively; empty tokens are skipped.
use vstd::prelude::*;
use vstd::string::*;
use crate::text::{
    is_ws, lemma_case_keeps_class, lemma_split_append_plain, lemma_split_nonempty,
    lemma_split_pieces_lack_sep, lemma_split_push_sep, lemma_trim_noop, lemma_trim_shape,
    lower_char, chars_of, eq_str, lower, push_char, split_chars, split_on, string_from, string_of, to_lower,
    to_upper_char, trim, trim_chars, upper_char, views,
};

verus! {

/// Modifier flags. Mirrors the modifiers the compositor cares about.
#[derive(Clone, Copy, Debug, PartialEq, Eq, Structural, Default, Hash)]
pub struct Mods {
    /// "Super" / Windows key.
    pub logo: bool,
    pub ctrl: bool,
    pub alt: bool,
    pub shift: bool,
}

/// No modifier held.
pub open spec fn no_mods() -> Mods {
    Mods { logo: false, ctrl: false, alt: false, shift: false }
}

impl Mods {
    /// No modifier held.
    pub fn none() -> (m: Mods)
        ensures
            m == no_mods(),
    {
        Mods { logo: false, ctrl: false, alt: false, shift: false }
    }
}

/// A fully parsed key combination.
#[derive(Clone, Debug, PartialEq, Eq, Hash)]
pub struct Keybind {
    pub mods: Mods,
    /// Lowercased key name, e.g. `"return"`, `"q"`, `"f1"`, `"space"`.
    pub key: String,
}

/// Why a binding string was rejected; each carries the whole input.
#[derive(Clone, Debug, PartialEq, Eq)]
pub enum KeybindParseError {
    /// No token other than modifiers.
    NoKey(String),
    /// More than one token that is not a modifier.
    MultipleKeys(String),
}

/// Which modifier a lowercased token names: 1 logo, 2 ctrl, 3 alt, 4 shift,
/// 0 for a token that is not a modifier.
pub open spec fn modifier_kind(t: Seq<char>) -> int {
    if t == "super"@ || t == "win"@ || t == "logo"@ || t == "meta"@ || t == "cmd"@ {
        1
    } else if t == "ctrl"@ || t == "control"@ {
        2
    } else if t == "alt"@ || t == "mod1"@ || t == "option"@ {
        3
    } else if t == "shift"@ {
        4
    } else {
        0
    }
}

/// The token a piece of the binding string stands for.
pub open spec fn token_of(piece: Seq<char>) -> Seq<char> {
    lower(trim(piece))
}

/// `m` with the modifier of kind `k` switched on.
pub open spec fn with_modifier(m: Mods, k: int) -> Mods {
    if k == 1 {
        Mods { logo: true, ..m }
    } else if k == 2 {
        Mods { ctrl: true, ..m }
    } else if k == 3 {
        Mods { alt: true, ..m }
    } else if k == 4 {
        Mods { shift: true, ..m }
    } else {
        m
    }
}

/// The modifiers named by `pieces`, and their non-modifier tokens in order.
pub open spec fn collect_tokens(pieces: Seq<Seq<char>>) -> (Mods, Seq<Seq<char>>)
    decreases pieces.len(),
{
    if pieces.len() == 0 {
        (no_mods(), Seq::empty())
    } else {
        let (m, keys) = collect_tokens(pieces.drop_last());
        let t = token_of(pieces.last());
        if t.len() == 0 {
            (m, keys)
        } else if modifier_kind(t) != 0 {
            (with_modifier(m, modifier_kind(t)), keys)
        } else {
            (m, keys.push(t))
        }
    }
}

/// Modifiers named in the binding string `s`.
pub open spec fn parsed_mods(s: Seq<char>) -> Mods {
    collect_tokens(split_on(s, '+')).0
}

/// Non-modifier tokens of the binding string `s`, lowercased, in order.
pub open spec fn parsed_keys(s: Seq<char>) -> Seq<Seq<char>> {
    collect_tokens(split_on(s, '+')).1
}

/// The key with its first character in ASCII uppercase.
pub open spec fn title(s: Seq<char>) -> Seq<char> {
    if s.len() == 0 {
        s
    } else {
        seq![upper_char(s[0])] + s.drop_first()
    }
}

/// The canonical text of a binding: each present modifier, in the order
/// Super, Ctrl, Alt, Shift, followed by `+`, then the title-cased key.
pub open spec fn canonical(m: Mods, key: Seq<char>) -> Seq<char> {
    (if m.logo { "Super"@.push('+') } else { Seq::empty() }) + (if m.ctrl {
        "Ctrl"@.push('+')
    } else {
        Seq::empty()
    }) + (if m.alt { "Alt"@.push('+') } else { Seq::empty() }) + (if m.shift {
        "Shift"@.push('+')
    } else {
        Seq::empty()
    }) + title(key)
}

/// Capitalise the first character (ASCII only); the rest is unchanged.
pub fn title_case(s: &str) -> (r: String)
    ensures
        r@ == title(s@),
{
    let v = chars_of(s);
    let mut r = String::new();
    if v.len() == 0 {
        return r;
    }
    push_char(&mut r, to_upper_char(v[0]));
    let mut i: usize = 1;
    while i < v.len()
        invariant
            1 <= i <= v.len(),
            v@ == s@,
            r@ == seq![upper_char(v@[0])] + v@.subrange(1, i as int),
        decreases v.len() - i,
    {
        push_char(&mut r, v[i]);
        proof {
            assert(v@.subrange(1, i + 1) =~= v@.subrange(1, i as int).push(v@[i as int]));
        }
        i += 1;
    }
    assert(v@.subrange(1, v.len() as int) =~= v@.drop_first());
    r
}

fn modifier_kind_of(t: &Vec<char>) -> (k: u8)
    ensures
        k as int == modifier_kind(t@),
{
    if eq_str(t, "super") || eq_str(t, "win") || eq_str(t, "logo") || eq_str(t, "meta")
        || eq_str(t, "cmd") {
        1
    } else if eq_str(t, "ctrl") || eq_str(t, "control") {
        2
    } else if eq_str(t, "alt") || eq_str(t, "mod1") || eq_str(t, "option") {
        3
    } else if eq_str(t, "shift") {
        4
    } else {
        0
    }
}

impl Keybind {
    /// Parse a binding string such as `"Super+Shift+Q"`. Modifier and key names
    /// are case-insensitive; the aliases `Win`, `Logo`, `Meta`, `Cmd`,
    /// `Control`, `Mod1` and `Option` are accepted.
    pub fn parse(s: &str) -> (r: Result<Keybind, KeybindParseError>)
        ensures
            match r {
                Ok(kb) => parsed_keys(s@).len() == 1 && kb.mods == parsed_mods(s@) && kb.key@
                    == parsed_keys(s@)[0],
                Err(KeybindParseError::NoKey(t)) => parsed_keys(s@).len() == 0 && t@ == s@,
                Err(KeybindParseError::MultipleKeys(t)) => parsed_keys(s@).len() >= 2 && t@
                    == s@,
            },
    {
        let chars = chars_of(s);
        let pieces = split_chars(&chars, '+');
        let mut mods = Mods::none();
        let mut first: Vec<char> = Vec::new();
        let mut count: usize = 0;
        let mut i: usize = 0;
        while i < pieces.len()
            invariant
                i <= pieces.len(),
                views(pieces@) == split_on(s@, '+'),
                ({
                    let (m, keys) = collect_tokens(views(pieces@).subrange(0, i as int));
                    &&& mods == m
                    &&& count == (if keys.len() >= 2 { 2 } else { keys.len() })
                    &&& keys.len() >= 1 ==> first@ == keys[0]
                }),
            decreases pieces.len() - i,
        {
            let ghost pre = views(pieces@).subrange(0, i as int);
            assert(views(pieces@).subrange(0, i + 1).drop_last() =~= pre);
            let t = to_lower(&trim_chars(&pieces[i]));
            let k = modifier_kind_of(&t);
            if t.len() == 0 {
            } else if k == 1 {
                mods.logo = true;
            } else if k == 2 {
                mods.ctrl = true;
            } else if k == 3 {
                mods.alt = true;
            } else if k == 4 {
                mods.shift = true;
            } else {
                if count == 0 {
                    first = t;
                }
                if count < 2 {
                    count += 1;
                }
            }
            i += 1;
        }
        assert(views(pieces@).subrange(0, pieces.len() as int) =~= views(pieces@));
        if count == 0 {
            Err(KeybindParseError::NoKey(string_from(s)))
        } else if count >= 2 {
            Err(KeybindParseError::MultipleKeys(string_from(s)))
        } else {
            Ok(Keybind { mods, key: string_of(&first) })
        }
    }

    /// Render back to the canonical `"Super+Shift+Q"` form.
    pub fn to_string_canonical(&self) -> (r: String)
        ensures
            r@ == canonical(self.mods, self.key@),
    {
        let mut r = String::new();
        if self.mods.logo {
            r.append("Super");
            push_char(&mut r, '+');
        }
        if self.mods.ctrl {
            r.append("Ctrl");
            push_char(&mut r, '+');
        }
        if self.mods.alt {
            r.append("Alt");
            push_char(&mut r, '+');
        }
        if self.mods.shift {
            r.append("Shift");
            push_char(&mut r, '+');
        }
        let t = title_case(self.key.as_str());
        r.append(t.as_str());
        assert(r@ =~= canonical(self.mods, self.key@));
        r
    }
}


/// A key name as the parser produces it: non-empty, not a modifier, free of
/// `+`, already lowercase, and without whitespace at either end.
pub open spec fn is_parsed_key(k: Seq<char>) -> bool {
    &&& k.len() > 0
    &&& modifier_kind(k) == 0
    &&& forall|i: int| 0 <= i < k.len() ==> k[i] != '+'
    &&& lower(k) == k
    &&& !is_ws(k[0])
    &&& !is_ws(k.last())
}

proof fn lemma_token_shape(p: Seq<char>)
    requires
        forall|i: int| 0 <= i < p.len() ==> p[i] != '+',
        token_of(p).len() > 0,
    ensures
        forall|i: int| 0 <= i < token_of(p).len() ==> token_of(p)[i] != '+',
        lower(token_of(p)) == token_of(p),
        !is_ws(token_of(p)[0]),
        !is_ws(token_of(p).last()),
{
    lemma_trim_shape(p);
    let t = trim(p);
    let (a, b) = choose|a: int, b: int| 0 <= a <= b <= p.len() && trim(p) == p.subrange(a, b);
    assert forall|i: int| 0 <= i < token_of(p).len() implies token_of(p)[i] != '+' by {
        assert(t[i] == p[a + i]);
        lemma_case_keeps_class(t[i]);
    }
    assert forall|i: int| 0 <= i < t.len() implies lower_char(lower_char(t[i])) == lower_char(
        t[i],
    ) by {
        lemma_case_keeps_class(t[i]);
    }
    assert(lower(token_of(p)) =~= token_of(p));
    lemma_case_keeps_class(t[0]);
    lemma_case_keeps_class(t.last());
}

proof fn lemma_collected_keys_parsed(ps: Seq<Seq<char>>)
    requires
        forall|j: int, i: int| 0 <= j < ps.len() && 0 <= i < ps[j].len() ==> #[trigger] ps[j][i] != '+',
    ensures
        forall|j: int| 0 <= j < collect_tokens(ps).1.len() ==> is_parsed_key(
            #[trigger] collect_tokens(ps).1[j],
        ),
    decreases ps.len(),
{
    if ps.len() > 0 {
        let ps1 = ps.drop_last();
        assert forall|j: int, i: int| 0 <= j < ps1.len() && 0 <= i < ps1[j].len() implies #[trigger] ps1[j][i]
            != '+' by {
            assert(ps1[j][i] == ps[j][i]);
        }
        lemma_collected_keys_parsed(ps1);
        let t = token_of(ps.last());
        if t.len() > 0 && modifier_kind(t) == 0 {
            assert forall|i: int| 0 <= i < ps.last().len() implies ps.last()[i] != '+' by {
                assert(ps[ps.len() - 1][i] != '+');
            }
            lemma_token_shape(ps.last());
        }
        let keys1 = collect_tokens(ps1).1;
        assert forall|j: int| 0 <= j < collect_tokens(ps).1.len() implies is_parsed_key(
            #[trigger] collect_tokens(ps).1[j],
        ) by {
            if j < keys1.len() {
                assert(collect_tokens(ps).1[j] == keys1[j]);
                assert(is_parsed_key(keys1[j]));
            }
        }
    }
}

/// Every key that `Keybind::parse` can return satisfies `is_parsed_key`.
pub proof fn lemma_parsed_key_shape(s: Seq<char>)
    requires
        parsed_keys(s).len() >= 1,
    ensures
        is_parsed_key(parsed_keys(s)[0]),
{
    lemma_split_pieces_lack_sep(s, '+');
    lemma_collected_keys_parsed(split_on(s, '+'));
}

proof fn lemma_title_token(k: Seq<char>)
    requires
        is_parsed_key(k),
    ensures
        token_of(title(k)) == k,
        forall|i: int| 0 <= i < title(k).len() ==> title(k)[i] != '+',
{
    let t = title(k);
    lemma_case_keeps_class(k[0]);
    assert(t.len() == k.len());
    assert forall|i: int| 0 <= i < t.len() implies t[i] != '+' && lower_char(t[i]) == k[i] by {
        lemma_case_keeps_class(k[i]);
        if i > 0 {
            assert(t[i] == k[i]);
        }
        assert(lower(k)[i] == k[i]);
    }
    assert(!is_ws(t.last())) by {
        lemma_case_keeps_class(k.last());
        if t.len() > 1 {
            assert(t.last() == k.last());
        }
    }
    lemma_trim_noop(t);
    assert(lower(t) =~= k);
}

/// Splitting text that ends with a separator, followed by a word and another
/// separator, replaces the empty last piece by the word and opens a new one.
proof fn lemma_split_word_sep(x: Seq<char>, w: Seq<char>, q: Seq<Seq<char>>)
    requires
        split_on(x, '+') == q.push(Seq::<char>::empty()),
        forall|i: int| 0 <= i < w.len() ==> w[i] != '+',
    ensures
        split_on(x + w.push('+'), '+') == q.push(w).push(Seq::<char>::empty()),
{
    lemma_split_append_plain(x, w, '+');
    assert(x + w.push('+') =~= (x + w).push('+'));
    lemma_split_push_sep(x + w, '+');
    assert(q.push(Seq::<char>::empty()).last() + w =~= w);
    assert(q.push(Seq::<char>::empty()).update(q.len() as int, w) =~= q.push(w));
}

/// Pieces that name modifiers, plus the key, collected in order.
proof fn lemma_collect_push(q: Seq<Seq<char>>, p: Seq<char>)
    ensures
        collect_tokens(q.push(p)) == ({
            let (m, keys) = collect_tokens(q);
            let t = token_of(p);
            if t.len() == 0 {
                (m, keys)
            } else if modifier_kind(t) != 0 {
                (with_modifier(m, modifier_kind(t)), keys)
            } else {
                (m, keys.push(t))
            }
        }),
{
    assert(q.push(p).drop_last() =~= q);
}

/// The canonical text of modifiers `m` and a key `k` as the parser produces
/// keys parses back to exactly `m` and `k`.
pub proof fn law_canonical_parses(m: Mods, k: Seq<char>)
    requires
        is_parsed_key(k),
    ensures
        parsed_mods(canonical(m, k)) == m,
        parsed_keys(canonical(m, k)) == seq![k],
{
    lemma_title_token(k);
    reveal_strlit("Super");
    reveal_strlit("Ctrl");
    reveal_strlit("Alt");
    reveal_strlit("Shift");
    reveal_strlit("super");
    reveal_strlit("ctrl");
    reveal_strlit("alt");
    reveal_strlit("shift");
    reveal_strlit("win");
    reveal_strlit("logo");
    reveal_strlit("meta");
    reveal_strlit("cmd");
    reveal_strlit("control");
    reveal_strlit("mod1");
    reveal_strlit("option");
    let w1 = "Super"@;
    let w2 = "Ctrl"@;
    let w3 = "Alt"@;
    let w4 = "Shift"@;
    assert(token_of(w1) =~= "super"@) by { lemma_trim_noop(w1); }
    assert(token_of(w2) =~= "ctrl"@) by { lemma_trim_noop(w2); }
    assert(token_of(w3) =~= "alt"@) by { lemma_trim_noop(w3); }
    assert(token_of(w4) =~= "shift"@) by { lemma_trim_noop(w4); }
    assert("ctrl"@[0] != "logo"@[0] && "ctrl"@[0] != "meta"@[0]);
    assert("alt"@[0] != "win"@[0] && "alt"@[0] != "cmd"@[0]);
    assert("shift"@[1] != "super"@[1]);
    assert(modifier_kind(token_of(w1)) == 1);
    assert(modifier_kind(token_of(w2)) == 2);
    assert(modifier_kind(token_of(w3)) == 3);
    assert(modifier_kind(token_of(w4)) == 4);
    // Build the text and its pieces one modifier at a time.
    let x0 = Seq::<char>::empty();
    let q0 = Seq::<Seq<char>>::empty();
    assert(split_on(x0, '+') == q0.push(Seq::<char>::empty()));
    let x1 = if m.logo { x0 + w1.push('+') } else { x0 };
    let q1 = if m.logo { q0.push(w1) } else { q0 };
    if m.logo { lemma_split_word_sep(x0, w1, q0); }
    let x2 = if m.ctrl { x1 + w2.push('+') } else { x1 };
    let q2 = if m.ctrl { q1.push(w2) } else { q1 };
    if m.ctrl { lemma_split_word_sep(x1, w2, q1); }
    let x3 = if m.alt { x2 + w3.push('+') } else { x2 };
    let q3 = if m.alt { q2.push(w3) } else { q2 };
    if m.alt { lemma_split_word_sep(x2, w3, q2); }
    let x4 = if m.shift { x3 + w4.push('+') } else { x3 };
    let q4 = if m.shift { q3.push(w4) } else { q3 };
    if m.shift { lemma_split_word_sep(x3, w4, q3); }
    assert(canonical(m, k) =~= x4 + title(k));
    lemma_split_append_plain(x4, title(k), '+');
    assert(q4.push(Seq::<char>::empty()).last() + title(k) =~= title(k));
    assert(split_on(canonical(m, k), '+') =~= q4.push(title(k)));
    // Collect the pieces one at a time.
    assert(collect_tokens(q0) == (no_mods(), Seq::<Seq<char>>::empty()));
    if m.logo { lemma_collect_push(q0, w1); }
    if m.ctrl { lemma_collect_push(q1, w2); }
    if m.alt { lemma_collect_push(q2, w3); }
    if m.shift { lemma_collect_push(q3, w4); }
    lemma_collect_push(q4, title(k));
    let mm = collect_tokens(q4).0;
    assert(collect_tokens(q4).1 =~= Seq::<Seq<char>>::empty());
    assert(mm == Mods { logo: m.logo, ctrl: m.ctrl, alt: m.alt, shift: m.shift });
    assert(parsed_keys(canonical(m, k)) =~= seq![k]);
}

/// Rendering a parsed binding in canonical form and parsing that text again
/// gives back the same modifiers and key: `parse` undoes `to_string_canonical`
/// for every binding that `parse` can produce.
pub proof fn law_canonical_round_trip(s: Seq<char>)
    requires
        parsed_keys(s).len() == 1,
    ensures
        parsed_keys(canonical(parsed_mods(s), parsed_keys(s)[0])).len() == 1,
        parsed_keys(canonical(parsed_mods(s), parsed_keys(s)[0]))[0] == parsed_keys(s)[0],
        parsed_mods(canonical(parsed_mods(s), parsed_keys(s)[0])) == parsed_mods(s),
{
    lemma_parsed_key_shape(s);
    law_canonical_parses(parsed_mods(s), parsed_keys(s)[0]);
}

} // verus!
