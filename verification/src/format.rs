//! The format-string converter. It rewrites C `printf`-style format
//! specifiers inside a string literal into Rust formatting placeholders: a
//! `%`, then zero or more modifier characters (`.`, `-`, digits), then one
//! type character from `{s, d, f, x}`, becomes `{}` when the modifier part
//! is empty and `{:<modifiers><type>}` otherwise. One full left-to-right
//! pass is repeated until a pass changes nothing (a fixed point); each
//! changing pass removes at least one `%`, so the iteration terminates.

use vstd::prelude::*;

verus! {

/// May `c` stand between the `%` and the type character of a specifier?
pub open spec fn is_mod_char(c: char) -> bool {
    c == '.' || c == '-' || (48 <= c as u32 && c as u32 <= 57)
}

/// Does `c` end a format specifier?
pub open spec fn is_type_char(c: char) -> bool {
    c == 's' || c == 'd' || c == 'f' || c == 'x'
}

/// Length of the run of modifier characters at the start of `s`.
pub open spec fn mod_run(s: Seq<char>) -> nat
    decreases s.len(),
{
    if s.len() > 0 && is_mod_char(s[0]) {
        1 + mod_run(s.drop_first())
    } else {
        0
    }
}

pub proof fn lemma_mod_run(s: Seq<char>)
    ensures
        mod_run(s) <= s.len(),
        forall|k: int| 0 <= k < mod_run(s) ==> is_mod_char(s[k]),
        mod_run(s) < s.len() ==> !is_mod_char(s[mod_run(s) as int]),
    decreases s.len(),
{
    if s.len() > 0 && is_mod_char(s[0]) {
        lemma_mod_run(s.drop_first());
        assert forall|k: int| 0 <= k < mod_run(s) implies is_mod_char(s[k]) by {
            if k > 0 {
                assert(s.drop_first()[k - 1] == s[k]);
            }
        }
    }
}

pub proof fn lemma_mod_run_is(s: Seq<char>, k: int)
    requires
        0 <= k <= s.len(),
        forall|j: int| 0 <= j < k ==> is_mod_char(s[j]),
        k < s.len() ==> !is_mod_char(s[k]),
    ensures
        mod_run(s) == k,
    decreases k,
{
    if k > 0 {
        lemma_mod_run_is(s.drop_first(), k - 1);
    }
}

/// Does a format specifier stand at the very start of `s`?
pub open spec fn fmt_match(s: Seq<char>) -> bool {
    s.len() >= 2 && s[0] == '%' && {
        let k = mod_run(s.drop_first()) as int;
        1 + k < s.len() && is_type_char(s[1 + k])
    }
}

/// The placeholder a specifier with the given modifiers and type character
/// is replaced with.
pub open spec fn placeholder(mods: Seq<char>, t: char) -> Seq<char> {
    if mods.len() == 0 {
        seq!['{', '}']
    } else {
        seq!['{', ':'] + mods + seq![t, '}']
    }
}

/// One full left-to-right pass: each specifier found is replaced by its
/// placeholder; all other characters are copied unchanged.
pub open spec fn fmt_pass(s: Seq<char>) -> Seq<char>
    decreases s.len(),
{
    if s.len() == 0 {
        s
    } else if fmt_match(s) {
        let k = mod_run(s.drop_first()) as int;
        placeholder(s.subrange(1, 1 + k), s[1 + k]) + fmt_pass(s.skip(2 + k))
    } else {
        seq![s[0]] + fmt_pass(s.drop_first())
    }
}

/// Number of `%` characters in `s`.
pub open spec fn count_pct(s: Seq<char>) -> nat
    decreases s.len(),
{
    if s.len() == 0 {
        0
    } else {
        (if s[0] == '%' {
            1nat
        } else {
            0nat
        }) + count_pct(s.drop_first())
    }
}

pub proof fn lemma_count_pct_concat(a: Seq<char>, b: Seq<char>)
    ensures
        count_pct(a + b) == count_pct(a) + count_pct(b),
    decreases a.len(),
{
    if a.len() == 0 {
        assert(a + b =~= b);
    } else {
        assert((a + b).drop_first() =~= a.drop_first() + b);
        lemma_count_pct_concat(a.drop_first(), b);
    }
}

pub proof fn lemma_count_pct_none(s: Seq<char>)
    requires
        forall|k: int| 0 <= k < s.len() ==> s[k] != '%',
    ensures
        count_pct(s) == 0,
    decreases s.len(),
{
    if s.len() > 0 {
        lemma_count_pct_none(s.drop_first());
    }
}

/// A pass never adds a `%`, and a pass that changes something removes one.
pub proof fn lemma_pass_decreases(s: Seq<char>)
    ensures
        count_pct(fmt_pass(s)) <= count_pct(s),
        fmt_pass(s) != s ==> count_pct(fmt_pass(s)) < count_pct(s),
    decreases s.len(),
{
    if s.len() == 0 {
    } else if fmt_match(s) {
        let k = mod_run(s.drop_first()) as int;
        let mods = s.subrange(1, 1 + k);
        let rest = s.skip(2 + k);
        lemma_mod_run(s.drop_first());
        assert(forall|j: int| 0 <= j < mods.len() ==> is_mod_char(#[trigger] mods[j]));
        lemma_count_pct_none(placeholder(mods, s[1 + k]));
        lemma_pass_decreases(rest);
        lemma_count_pct_concat(placeholder(mods, s[1 + k]), fmt_pass(rest));
        assert(s =~= seq![s[0]] + mods + seq![s[1 + k]] + rest);
        lemma_count_pct_concat(seq![s[0]] + mods + seq![s[1 + k]], rest);
        lemma_count_pct_concat(seq![s[0]] + mods, seq![s[1 + k]]);
        lemma_count_pct_concat(seq![s[0]], mods);
        lemma_count_pct_none(mods);
        assert(count_pct(Seq::<char>::empty()) == 0);
        assert(seq![s[0]].drop_first() =~= Seq::<char>::empty());
        assert(seq![s[1 + k]].drop_first() =~= Seq::<char>::empty());
        assert(count_pct(seq![s[0]]) == 1);
        assert(count_pct(seq![s[1 + k]]) == 0);
        assert(count_pct(s) == 1 + count_pct(rest));
    } else {
        lemma_pass_decreases(s.drop_first());
        lemma_count_pct_concat(seq![s[0]], fmt_pass(s.drop_first()));
        lemma_count_pct_concat(seq![s[0]], s.drop_first());
        assert(s =~= seq![s[0]] + s.drop_first());
        if fmt_pass(s) != s {
            assert(fmt_pass(s.drop_first()) != s.drop_first());
        }
    }
}

/// The fixed point the rewriting reaches: passes applied until one changes
/// nothing.
pub open spec fn fmt_fix(s: Seq<char>) -> Seq<char>
    decreases count_pct(s),
{
    if fmt_pass(s) == s {
        s
    } else if count_pct(fmt_pass(s)) < count_pct(s) {
        fmt_fix(fmt_pass(s))
    } else {
        s
    }
}

/// Converting a converted literal changes nothing: the result of the
/// rewriting is a fixed point of the pass, so conversion is idempotent.
pub proof fn lemma_format_fixed_point(s: Seq<char>)
    ensures
        fmt_pass(fmt_fix(s)) == fmt_fix(s),
        fmt_fix(fmt_fix(s)) == fmt_fix(s),
    decreases count_pct(s),
{
    lemma_pass_decreases(s);
    if fmt_pass(s) != s {
        lemma_format_fixed_point(fmt_pass(s));
    }
}

fn is_mod_char_exec(c: char) -> (r: bool)
    ensures
        r == is_mod_char(c),
{
    c == '.' || c == '-' || (48 <= c as u32 && c as u32 <= 57)
}

fn is_type_char_exec(c: char) -> (r: bool)
    ensures
        r == is_type_char(c),
{
    c == 's' || c == 'd' || c == 'f' || c == 'x'
}

/// Length of the modifier run of `s` starting at `from`.
fn mod_run_at(s: &Vec<char>, from: usize) -> (k: usize)
    requires
        from <= s@.len(),
    ensures
        k as nat == mod_run(s@.skip(from as int)),
        from + k <= s@.len(),
{
    let mut j: usize = from;
    while j < s.len() && is_mod_char_exec(s[j])
        invariant
            from <= j <= s@.len(),
            forall|i: int| from <= i < j ==> is_mod_char(s@[i]),
        decreases s@.len() - j,
    {
        j = j + 1;
    }
    proof {
        lemma_mod_run_is(s@.skip(from as int), j - from);
    }
    j - from
}

/// Are two character vectors equal?
fn chars_eq(a: &Vec<char>, b: &Vec<char>) -> (r: bool)
    ensures
        r == (a@ == b@),
{
    if a.len() != b.len() {
        return false;
    }
    let mut i: usize = 0;
    while i < a.len()
        invariant
            a@.len() == b@.len(),
            i <= a@.len(),
            forall|k: int| 0 <= k < i ==> a@[k] == b@[k],
        decreases a@.len() - i,
    {
        if a[i] != b[i] {
            return false;
        }
        i = i + 1;
    }
    proof {
        assert(a@ =~= b@);
    }
    true
}

/// One full rewriting pass over `s`.
fn fmt_pass_exec(s: &Vec<char>) -> (r: Vec<char>)
    ensures
        r@ == fmt_pass(s@),
{
    let mut out: Vec<char> = Vec::new();
    let mut i: usize = 0;
    proof {
        assert(s@.skip(0) =~= s@);
        assert(Seq::<char>::empty() + fmt_pass(s@) =~= fmt_pass(s@));
    }
    while i < s.len()
        invariant
            i <= s@.len(),
            fmt_pass(s@) == out@ + fmt_pass(s@.skip(i as int)),
        decreases s@.len() - i,
    {
        let ghost rest = s@.skip(i as int);
        if s[i] == '%' {
            let k = mod_run_at(s, i + 1);
            proof {
                assert(rest.drop_first() =~= s@.skip(i + 1));
            }
            if i + 1 + k < s.len() && is_type_char_exec(s[i + 1 + k]) {
                // a specifier starts here: emit its placeholder
                let ghost out0 = out@;
                if k == 0 {
                    out.push('{');
                    out.push('}');
                } else {
                    out.push('{');
                    out.push(':');
                    let end: usize = i + 1 + k;
                    let mut j: usize = i + 1;
                    while j < end
                        invariant
                            i + 1 <= j <= end,
                            end == i + 1 + k,
                            end < s@.len(),
                            out@ == out0 + seq!['{', ':'] + s@.subrange(i + 1, j as int),
                        decreases end - j,
                    {
                        out.push(s[j]);
                        j = j + 1;
                        proof {
                            assert(out@ =~= out0 + seq!['{', ':'] + s@.subrange(
                                i + 1,
                                j as int,
                            ));
                        }
                    }
                    out.push(s[i + 1 + k]);
                    out.push('}');
                }
                proof {
                    let mods = rest.subrange(1, 1 + k);
                    assert(mods =~= s@.subrange(i + 1, i + 1 + k));
                    assert(fmt_match(rest));
                    assert(out@ =~= out0 + placeholder(mods, rest[1 + k]));
                    assert(rest.skip(2 + k) =~= s@.skip(i + 2 + k));
                    assert(fmt_pass(s@) =~= out@ + fmt_pass(s@.skip(i + 2 + k)));
                }
                i = i + 2 + k;
            } else {
                proof {
                    assert(!fmt_match(rest));
                    assert(rest[0] == s@[i as int]);
                    assert(rest.drop_first() =~= s@.skip(i + 1));
                    assert(fmt_pass(s@) =~= out@.push(s@[i as int]) + fmt_pass(s@.skip(i + 1)));
                }
                out.push(s[i]);
                i = i + 1;
            }
        } else {
            proof {
                assert(!fmt_match(rest));
                assert(rest[0] == s@[i as int]);
                assert(rest.drop_first() =~= s@.skip(i + 1));
                assert(fmt_pass(s@) =~= out@.push(s@[i as int]) + fmt_pass(s@.skip(i + 1)));
            }
            out.push(s[i]);
            i = i + 1;
        }
    }
    proof {
        assert(s@.skip(i as int) =~= Seq::<char>::empty());
        assert(fmt_pass(s@) =~= out@);
    }
    out
}

/// Rewrites the format specifiers of one string literal, repeating passes
/// until a fixed point is reached.
pub fn convert_format_string(s: Vec<char>) -> (r: Vec<char>)
    ensures
        r@ == fmt_fix(s@),
{
    let mut cur = s;
    loop
        invariant
            fmt_fix(cur@) == fmt_fix(s@),
        decreases count_pct(cur@),
    {
        let next = fmt_pass_exec(&cur);
        if chars_eq(&next, &cur) {
            return cur;
        }
        proof {
            lemma_pass_decreases(cur@);
        }
        cur = next;
    }
}

} // verus!
