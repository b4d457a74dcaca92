//! The text the dashboard panels show: labels, counts and wrapped lines.
use vstd::prelude::*;
use crate::text;
use crate::text::{decimal, is_word, words_of};
use crate::models::ModelInfo;
use crate::hardware::cpu::CpuInfo;
use crate::compat::warnings::{CompatWarning, WarningSeverity};

verus! {

/// The safe context shown in thousands ("32K tokens") above 1024 tokens.
pub open spec fn horizon_spec(n: u64) -> Seq<char> {
    if n > 1024 {
        decimal((n / 1024) as nat) + "K tokens"@
    } else {
        decimal(n as nat) + " tokens"@
    }
}

/// The horizon limit: the largest context that stays out of swap.
pub fn horizon_label(max_safe_context: u64) -> (r: String)
    ensures
        r@ == horizon_spec(max_safe_context),
{
    if max_safe_context > 1024 {
        let mut s = text::decimal_string(max_safe_context / 1024);
        s.append("K tokens");
        s
    } else {
        let mut s = text::decimal_string(max_safe_context);
        s.append(" tokens");
        s
    }
}

/// A context length in the KV table: in thousands ("4K") from 1024 on.
pub open spec fn context_spec(n: u64) -> Seq<char> {
    if n >= 1024 { decimal((n / 1024) as nat) + "K"@ } else { decimal(n as nat) }
}

/// The label of a context length.
pub fn context_label(context_length: u64) -> (r: String)
    ensures
        r@ == context_spec(context_length),
{
    if context_length >= 1024 {
        let mut s = text::decimal_string(context_length / 1024);
        s.append("K");
        s
    } else {
        text::decimal_string(context_length)
    }
}

/// Width of the memory bars in a panel `area_width` wide: 40 columns for the
/// labels, at least 20 and at most 60.
pub fn bar_width(area_width: u16) -> (r: usize)
    ensures
        r == (if area_width <= 60 { 20 } else if area_width >= 100 { 60 } else { area_width - 40 }),
{
    let w = area_width as usize;
    let a = if w > 40 { w - 40 } else { 0 };
    let b = if a < 60 { a } else { 60 };
    if b > 20 { b } else { 20 }
}

/// " (8 of 128 experts active)" for a mixture of experts, else "".
pub open spec fn expert_info_spec(m: ModelInfo) -> Seq<char> {
    if m.is_moe {
        " ("@ + decimal(m.num_experts_per_tok as nat) + " of "@ + decimal(m.num_experts as nat)
            + " experts active)"@
    } else {
        Seq::empty()
    }
}

/// How many experts a mixture of experts uses per token.
pub fn expert_info(model: &ModelInfo) -> (r: String)
    ensures
        r@ == expert_info_spec(*model),
{
    if !model.is_moe {
        return String::new();
    }
    let mut s = String::from_str(" (");
    let per = text::decimal_string(model.num_experts_per_tok as u64);
    s.append(per.as_str());
    s.append(" of ");
    let all = text::decimal_string(model.num_experts as u64);
    s.append(all.as_str());
    s.append(" experts active)");
    s
}

/// "12P + 4E (16 total)".
pub fn cores_line(cpu: &CpuInfo) -> (r: String)
    ensures
        r@ == decimal(cpu.performance_cores as nat) + "P + "@ + decimal(cpu.efficiency_cores as nat) + "E ("@
            + decimal(cpu.total_cores as nat) + " total)"@,
{
    let mut s = text::decimal_string(cpu.performance_cores as u64);
    s.append("P + ");
    let e = text::decimal_string(cpu.efficiency_cores as u64);
    s.append(e.as_str());
    s.append("E (");
    let t = text::decimal_string(cpu.total_cores as u64);
    s.append(t.as_str());
    s.append(" total)");
    s
}

/// The hint after the VPN line: how to reveal or hide the address of an
/// active connection; nothing when it is down.
pub fn vpn_hint(active: bool, visible: bool) -> (r: Option<String>)
    ensures
        !active ==> r is None,
        active && !visible ==> (r matches Some(h) && h@ == "  [v] reveal"@),
        active && visible ==> (r matches Some(h) && h@ == "  [v] hide"@),
{
    if active && !visible {
        Some(String::from_str("  [v] reveal"))
    } else if active {
        Some(String::from_str("  [v] hide"))
    } else {
        None
    }
}

/// The label of a warning's severity in the warnings overlay.
pub fn severity_label(s: WarningSeverity) -> (r: String)
    ensures
        r@ == (match s {
            WarningSeverity::Breaking => "BREAKING"@,
            WarningSeverity::Caution => "CAUTION"@,
            WarningSeverity::Info => "INFO"@,
        }),
{
    match s {
        WarningSeverity::Breaking => String::from_str("BREAKING"),
        WarningSeverity::Caution => String::from_str("CAUTION"),
        WarningSeverity::Info => String::from_str("INFO"),
    }
}

/// How many warnings are shown inline in the detail panel.
pub const INLINE_WARNINGS: usize = 3;

/// The line under the inline warnings when some are not shown.
pub fn more_warnings_note(count: usize) -> (r: Option<String>)
    ensures
        count <= INLINE_WARNINGS ==> r is None,
        count > INLINE_WARNINGS ==> (r matches Some(s)
            && s@ == "    ... and "@ + decimal((count - INLINE_WARNINGS) as nat) + " more (press 'w')"@),
{
    if count <= INLINE_WARNINGS {
        return None;
    }
    let mut s = String::from_str("    ... and ");
    let n = text::decimal_string((count - INLINE_WARNINGS) as u64);
    s.append(n.as_str());
    s.append(" more (press 'w')");
    Some(s)
}

/// How many distinct values `s` holds.
pub open spec fn distinct_count(s: Seq<Seq<char>>) -> nat
    decreases s.len(),
{
    if s.len() == 0 {
        0
    } else {
        distinct_count(s.drop_last()) + (if s.drop_last().contains(s.last()) { 0nat } else { 1nat })
    }
}

/// The engines the warnings are about.
pub open spec fn warning_engines(ws: Seq<CompatWarning>) -> Seq<Seq<char>> {
    ws.map_values(|w: CompatWarning| w.engine@)
}

/// How many distinct engines the warnings are about.
pub fn engine_count(warnings: &Vec<CompatWarning>) -> (r: usize)
    ensures
        r == distinct_count(warning_engines(warnings@)),
{
    let ghost es = warning_engines(warnings@);
    let mut seen: Vec<Vec<char>> = Vec::new();
    let mut i: usize = 0;
    while i < warnings.len()
        invariant
            i <= warnings.len(),
            es == warning_engines(warnings@),
            seen.len() == distinct_count(es.take(i as int)),
            seen.len() <= i,
            forall|k: int| 0 <= k < seen.len() ==> es.take(i as int).contains(#[trigger] seen[k]@),
            forall|j: int| #![trigger es[j]] 0 <= j < i ==> exists|k: int| 0 <= k < seen.len() && #[trigger] seen[k]@ == es[j],
        decreases warnings.len() - i,
    {
        let ev = text::chars_of(warnings[i].engine.as_str());
        assert(es[i as int] == ev@);
        let ghost prefix = es.take(i as int);
        assert(es.take(i + 1).drop_last() == prefix);
        assert(es.take(i + 1).last() == ev@);
        let mut k: usize = 0;
        let mut present = false;
        while k < seen.len() && !present
            invariant
                k <= seen.len(),
                present ==> exists|kk: int| 0 <= kk < seen.len() && #[trigger] seen[kk]@ == ev@,
                !present ==> forall|kk: int| 0 <= kk < k ==> #[trigger] seen[kk]@ != ev@,
            decreases seen.len() - k, if present { 0int } else { 1int },
        {
            if text::chars_eq(seen[k].as_slice(), ev.as_slice()) {
                present = true;
            } else {
                k += 1;
            }
        }
        proof {
            if present {
                let kk = choose|kk: int| 0 <= kk < seen.len() && #[trigger] seen[kk]@ == ev@;
                assert(prefix.contains(seen[kk]@));
            } else {
                if prefix.contains(ev@) {
                    let j = choose|j: int| 0 <= j < prefix.len() && prefix[j] == ev@;
                    assert(prefix[j] == es[j]);
                    let kk = choose|kk: int| 0 <= kk < seen.len() && #[trigger] seen[kk]@ == es[j];
                }
            }
        }
        let ghost old_seen = seen@;
        if !present {
            seen.push(ev);
        }
        proof {
            assert forall|kk: int| 0 <= kk < seen.len() implies es.take(i + 1).contains(#[trigger] seen[kk]@) by {
                if kk < old_seen.len() {
                    assert(seen[kk] == old_seen[kk]);
                    let j = choose|j: int| 0 <= j < prefix.len() && prefix[j] == seen[kk]@;
                    assert(es.take(i + 1)[j] == prefix[j]);
                } else {
                    assert(es.take(i + 1)[i as int] == ev@);
                }
            }
            assert forall|j: int| #![trigger es[j]] 0 <= j < i + 1 implies exists|kk: int| 0 <= kk < seen.len() && #[trigger] seen[kk]@ == es[j] by {
                if j < i {
                    let kk = choose|kk: int| 0 <= kk < old_seen.len() && #[trigger] old_seen[kk]@ == es[j];
                    assert(seen[kk] == old_seen[kk]);
                } else if present {
                    let kk = choose|kk: int| 0 <= kk < seen.len() && #[trigger] seen[kk]@ == ev@;
                } else {
                    assert(seen[seen.len() - 1]@ == ev@);
                }
            }
        }
        i += 1;
    }
    assert(es.take(warnings.len() as int) == es);
    seen.len()
}

/// "2 warnings for 1 engine. Uninstalled engines hidden." (plural for every
/// count but 1).
pub open spec fn warnings_footer_spec(count: nat, engines: nat) -> Seq<char> {
    "  "@ + decimal(count) + " warning"@ + (if count == 1 { Seq::empty() } else { "s"@ }) + " for "@
        + decimal(engines) + " engine"@ + (if engines == 1 { Seq::empty() } else { "s"@ })
        + ". Uninstalled engines hidden."@
}

/// The summary line under the warnings overlay.
pub fn warnings_footer(count: u64, engines: u64) -> (r: String)
    ensures
        r@ == warnings_footer_spec(count as nat, engines as nat),
{
    let mut s = String::from_str("  ");
    let c = text::decimal_string(count);
    s.append(c.as_str());
    s.append(" warning");
    if count != 1 {
        s.append("s");
    } else {
        assert(s@ + Seq::<char>::empty() == s@);
    }
    s.append(" for ");
    let e = text::decimal_string(engines);
    s.append(e.as_str());
    s.append(" engine");
    if engines != 1 {
        s.append("s");
    } else {
        assert(s@ + Seq::<char>::empty() == s@);
    }
    s.append(". Uninstalled engines hidden.");
    s
}

/// Words joined greedily into lines of at most `w` characters: each line is
/// (lines so far, line being filled).
pub open spec fn wrap_fold(ws: Seq<Seq<char>>, w: nat) -> (Seq<Seq<char>>, Seq<char>)
    decreases ws.len(),
{
    if ws.len() == 0 {
        (Seq::empty(), Seq::empty())
    } else {
        let prev = wrap_fold(ws.drop_last(), w);
        let word = ws.last();
        if prev.1.len() == 0 {
            (prev.0, word)
        } else if prev.1.len() + 1 + word.len() <= w {
            (prev.0, prev.1.push(' ') + word)
        } else {
            (prev.0.push(prev.1), word)
        }
    }
}

/// `t` wrapped at `w` characters: its words, a space between two on a line, a
/// word that does not fit starting a new line; at least one line; with
/// width 0 the text as it is.
pub open spec fn word_wrap_spec(t: Seq<char>, w: nat) -> Seq<Seq<char>> {
    if w == 0 {
        seq![t]
    } else {
        let f = wrap_fold(words_of(t), w);
        let all = if f.1.len() > 0 { f.0.push(f.1) } else { f.0 };
        if all.len() == 0 { seq![Seq::empty()] } else { all }
    }
}

/// Wraps `t` into lines of at most `max_width` characters (a longer word
/// keeps a line of its own).
pub fn word_wrap(t: &str, max_width: usize) -> (r: Vec<String>)
    ensures
        r.len() == word_wrap_spec(t@, max_width as nat).len(),
        forall|k: int| 0 <= k < r.len() ==> #[trigger] r[k]@ == word_wrap_spec(t@, max_width as nat)[k],
{
    if max_width == 0 {
        let r = vec![String::from_str(t)];
        assert(r@.len() == 1);
        return r;
    }
    let tv = text::chars_of(t);
    let words = text::split_whitespace_chars(tv.as_slice());
    let ghost ws = words_of(t@);
    proof { text::lemma_words_nonempty(t@); }
    let mut res: Vec<String> = Vec::new();
    let mut cur: Vec<char> = Vec::new();
    let mut k: usize = 0;
    while k < words.len()
        invariant
            k <= words.len(),
            max_width > 0,
            ws == words_of(t@),
            words.len() == ws.len(),
            forall|j: int| 0 <= j < words.len() ==> #[trigger] words[j]@ == ws[j],
            forall|j: int| 0 <= j < ws.len() ==> 0 < #[trigger] ws[j].len() <= t@.len(),
            res.len() == wrap_fold(ws.take(k as int), max_width as nat).0.len(),
            forall|j: int| 0 <= j < res.len() ==> #[trigger] res[j]@ == wrap_fold(ws.take(k as int), max_width as nat).0[j],
            cur@ == wrap_fold(ws.take(k as int), max_width as nat).1,
        decreases words.len() - k,
    {
        let ghost prev = wrap_fold(ws.take(k as int), max_width as nat);
        assert(ws.take(k + 1).drop_last() == ws.take(k as int));
        assert(ws.take(k + 1).last() == ws[k as int]);
        let word = words[k].as_slice();
        if cur.len() == 0 {
            cur = text::sub_chars(word, 0, word.len());
            assert(word@.subrange(0, word@.len() as int) == word@);
        } else if cur.len() < max_width && word.len() <= max_width - 1 - cur.len() {
            let ghost before = cur@;
            cur.push(' ');
            let mut j: usize = 0;
            while j < word.len()
                invariant
                    j <= word.len(),
                    cur@ == before.push(' ') + word@.take(j as int),
                decreases word.len() - j,
            {
                cur.push(word[j]);
                assert(word@.take(j + 1) == word@.take(j as int).push(word@[j as int]));
                j += 1;
            }
            assert(word@.take(word.len() as int) == word@);
        } else {
            res.push(text::string_of(cur.as_slice()));
            cur = text::sub_chars(word, 0, word.len());
            assert(word@.subrange(0, word@.len() as int) == word@);
        }
        k += 1;
    }
    assert(ws.take(words.len() as int) == ws);
    if cur.len() > 0 {
        res.push(text::string_of(cur.as_slice()));
    }
    if res.len() == 0 {
        res.push(String::new());
    }
    res
}

/// A wrapped line fits: it is at most `w` characters long, or it is one word.
pub open spec fn line_fits(line: Seq<char>, ws: Seq<Seq<char>>, w: nat) -> bool {
    line.len() <= w || ws.contains(line)
}

proof fn lemma_wrap_fold_fits(ws: Seq<Seq<char>>, w: nat)
    ensures
        forall|k: int| 0 <= k < wrap_fold(ws, w).0.len() ==> line_fits(#[trigger] wrap_fold(ws, w).0[k], ws, w),
        wrap_fold(ws, w).1.len() > 0 ==> line_fits(wrap_fold(ws, w).1, ws, w),
    decreases ws.len(),
{
    if ws.len() > 0 {
        let prev = wrap_fold(ws.drop_last(), w);
        lemma_wrap_fold_fits(ws.drop_last(), w);
        let word = ws.last();
        assert(ws.contains(word)) by {
            assert(ws[ws.len() - 1] == word);
        }
        assert forall|line: Seq<char>| #[trigger] line_fits(line, ws.drop_last(), w) implies line_fits(line, ws, w) by {
            if ws.drop_last().contains(line) {
                let j = choose|j: int| 0 <= j < ws.drop_last().len() && ws.drop_last()[j] == line;
                assert(ws[j] == line);
            }
        }
        if prev.1.len() > 0 && !(prev.1.len() + 1 + word.len() <= w) {
            let r = prev.0.push(prev.1);
            assert forall|k: int| 0 <= k < r.len() implies line_fits(#[trigger] r[k], ws, w) by {
                if k < prev.0.len() {
                    assert(line_fits(prev.0[k], ws.drop_last(), w));
                } else {
                    assert(r[k] == prev.1);
                }
            }
        } else {
            assert forall|k: int| 0 <= k < prev.0.len() implies line_fits(#[trigger] prev.0[k], ws, w) by {
                assert(line_fits(prev.0[k], ws.drop_last(), w));
            }
        }
    }
}

/// Each wrapped line fits the width: at most `max_width` characters, unless it is
/// a single word longer than that (a width of 0 leaves the text whole).
pub proof fn law_wrapped_lines_fit(t: Seq<char>, max_width: nat)
    requires
        max_width > 0,
    ensures
        forall|k: int| 0 <= k < word_wrap_spec(t, max_width).len()
            ==> line_fits(#[trigger] word_wrap_spec(t, max_width)[k], words_of(t), max_width),
{
    let ws = words_of(t);
    lemma_wrap_fold_fits(ws, max_width);
    let f = wrap_fold(ws, max_width);
    let all = if f.1.len() > 0 { f.0.push(f.1) } else { f.0 };
    assert forall|k: int| 0 <= k < all.len() implies line_fits(#[trigger] all[k], ws, max_width) by {
        if k < f.0.len() {
            assert(all[k] == f.0[k]);
        }
    }
    if all.len() == 0 {
        assert(word_wrap_spec(t, max_width)[0] == Seq::<char>::empty());
    }
}

/// The words of every line, in order.
pub open spec fn flat_words(lines: Seq<Seq<char>>) -> Seq<Seq<char>>
    decreases lines.len(),
{
    if lines.len() == 0 {
        Seq::empty()
    } else {
        flat_words(lines.drop_last()) + words_of(lines.last())
    }
}

proof fn lemma_wrap_fold_words(ws: Seq<Seq<char>>, w: nat)
    requires
        forall|k: int| 0 <= k < ws.len() ==> is_word(#[trigger] ws[k]),
    ensures
        flat_words(wrap_fold(ws, w).0) + words_of(wrap_fold(ws, w).1) == ws,
    decreases ws.len(),
{
    if ws.len() == 0 {
        assert(words_of(Seq::<char>::empty()) == Seq::<Seq<char>>::empty());
        assert(Seq::<Seq<char>>::empty() + Seq::<Seq<char>>::empty() =~= ws);
    } else {
        let front = ws.drop_last();
        assert forall|k: int| 0 <= k < front.len() implies is_word(#[trigger] front[k]) by {
            assert(front[k] == ws[k]);
        }
        lemma_wrap_fold_words(front, w);
        let prev = wrap_fold(front, w);
        let word = ws.last();
        assert(is_word(ws[ws.len() - 1]));
        text::lemma_words_of_word(word);
        assert(front.push(word) =~= ws);
        if prev.1.len() == 0 {
            assert(words_of(prev.1) == Seq::<Seq<char>>::empty());
            assert(flat_words(prev.0) + Seq::<Seq<char>>::empty() =~= flat_words(prev.0));
            assert(flat_words(prev.0) + seq![word] =~= front.push(word));
        } else if prev.1.len() + 1 + word.len() <= w {
            text::lemma_words_space_join(prev.1, word);
            assert(flat_words(prev.0) + (words_of(prev.1) + seq![word])
                =~= (flat_words(prev.0) + words_of(prev.1)).push(word));
        } else {
            let lines = prev.0.push(prev.1);
            assert(lines.drop_last() =~= prev.0);
            assert(flat_words(lines) == flat_words(prev.0) + words_of(prev.1));
            assert((flat_words(prev.0) + words_of(prev.1)) + seq![word]
                =~= (flat_words(prev.0) + words_of(prev.1)).push(word));
        }
    }
}

/// Wrapping keeps the words: the words of the lines, in order, are the
/// words of the text.
pub proof fn law_wrapping_keeps_the_words(t: Seq<char>, max_width: nat)
    ensures
        flat_words(word_wrap_spec(t, max_width)) == words_of(t),
{
    let lines = word_wrap_spec(t, max_width);
    let none = Seq::<Seq<char>>::empty();
    if max_width == 0 {
        assert(lines == seq![t]);
        assert(lines.drop_last() =~= none);
        assert(flat_words(lines.drop_last()) == none);
        assert(lines.last() == t);
        assert(none + words_of(t) =~= words_of(t));
    } else {
        text::lemma_words_are_words(t);
        lemma_wrap_fold_words(words_of(t), max_width);
        let f = wrap_fold(words_of(t), max_width);
        if f.1.len() > 0 {
            let all = f.0.push(f.1);
            assert(lines == all);
            assert(all.drop_last() =~= f.0);
            assert(all.last() == f.1);
        } else {
            assert(words_of(f.1) == none);
            assert(flat_words(f.0) + none =~= flat_words(f.0));
            if f.0.len() == 0 {
                let one: Seq<Seq<char>> = seq![Seq::empty()];
                assert(lines == one);
                assert(one.drop_last() =~= none);
                assert(flat_words(one.drop_last()) == none);
                assert(words_of(one.last()) == none);
                assert(none + none =~= none);
                assert(flat_words(f.0) == none);
            } else {
                assert(lines == f.0);
            }
        }
    }
}

} // verus!
