//! Greedy line-breaking of a string into lines bounded by an estimated
//! width.
//!
//! The estimated advance width of one character is `font_size * 0.6`
//! points (a monospace approximation), so a line holds at most
//! `max(10, max_width / (font_size * 0.6))` characters.  Words are taken
//! greedily: a word joins the current line while the line stays within
//! that bound, otherwise it starts a new line.  A single word longer than
//! the bound is never split; it occupies a line of its own.

use vstd::prelude::*;

verus! {

/// Unicode whitespace: the separators recognised when splitting into
/// words — the White_Space code points, the set `str::split_whitespace`
/// splits on.
pub open spec fn is_wsc(c: char) -> bool {
    ||| c as u32 == 0x9
    ||| c as u32 == 0xA
    ||| c as u32 == 0xB
    ||| c as u32 == 0xC
    ||| c as u32 == 0xD
    ||| c as u32 == 0x20
    ||| c as u32 == 0x85
    ||| c as u32 == 0xA0
    ||| c as u32 == 0x1680
    ||| (0x2000 <= c as u32 && c as u32 <= 0x200A)
    ||| c as u32 == 0x2028
    ||| c as u32 == 0x2029
    ||| c as u32 == 0x202F
    ||| c as u32 == 0x205F
    ||| c as u32 == 0x3000
}

/// The words of a character sequence: maximal runs of non-whitespace
/// characters, in order.
pub open spec fn words_of(s: Seq<char>) -> Seq<Seq<char>>
    decreases s.len(),
{
    if s.len() == 0 {
        Seq::empty()
    } else {
        let prev = words_of(s.drop_last());
        let c = s.last();
        if is_wsc(c) {
            prev
        } else if s.len() >= 2 && !is_wsc(s[s.len() - 2]) {
            prev.update(prev.len() - 1, prev.last().push(c))
        } else {
            prev.push(seq![c])
        }
    }
}

/// A word: non-empty and free of whitespace.
pub open spec fn good_word(w: Seq<char>) -> bool {
    w.len() > 0 && (forall|i: int| 0 <= i < w.len() ==> !is_wsc(w[i]))
}

/// All entries are words.
pub open spec fn good_words(ws: Seq<Seq<char>>) -> bool {
    forall|i: int| 0 <= i < ws.len() ==> good_word(#[trigger] ws[i])
}

/// Joins a sequence of lines (or words) with single spaces.
pub open spec fn sp_join(xs: Seq<Seq<char>>) -> Seq<char>
    decreases xs.len(),
{
    if xs.len() == 0 {
        Seq::empty()
    } else if xs.len() == 1 {
        xs[0]
    } else {
        sp_join(xs.drop_last()) + seq![' '] + xs.last()
    }
}

/// The greedy fill: accumulates words into the current (last) line while
/// `line.len() + 1 + word.len() <= maxc`, otherwise closes the line and
/// starts a new one holding just the word.
pub open spec fn greedy_fill(ws: Seq<Seq<char>>, maxc: int) -> Seq<Seq<char>>
    decreases ws.len(),
{
    if ws.len() == 0 {
        Seq::empty()
    } else {
        let prev = greedy_fill(ws.drop_last(), maxc);
        let w = ws.last();
        if prev.len() == 0 {
            seq![w]
        } else if prev.last().len() + 1 + w.len() <= maxc {
            prev.update(prev.len() - 1, prev.last() + seq![' '] + w)
        } else {
            prev.push(w)
        }
    }
}

/// The character capacity of a line of width `max_width_mpt` millipoints
/// at the given font size, floored at 10.
pub open spec fn max_chars_of(max_width_mpt: int, font_size: int) -> int {
    let mc = max_width_mpt / (font_size * 600);
    if mc >= 10 {
        mc
    } else {
        10
    }
}

/// What wrapping returns: the greedy fill of the words, except that a
/// text without any word yields the original text as the single line.
pub open spec fn wrap_spec(text: Seq<char>, maxc: int) -> Seq<Seq<char>> {
    if words_of(text).len() == 0 {
        seq![text]
    } else {
        greedy_fill(words_of(text), maxc)
    }
}

/// A sequence that ends in a non-whitespace character holds at least one
/// word.
pub proof fn lemma_words_nonempty(s: Seq<char>)
    requires
        s.len() > 0,
        !is_wsc(s.last()),
    ensures
        words_of(s).len() >= 1,
    decreases s.len(),
{
    if s.len() >= 2 && !is_wsc(s[s.len() - 2]) {
        lemma_words_nonempty(s.drop_last());
    }
}

/// Every entry of `words_of` is a word.
pub proof fn lemma_words_good(s: Seq<char>)
    ensures
        good_words(words_of(s)),
    decreases s.len(),
{
    if s.len() > 0 {
        lemma_words_good(s.drop_last());
        let prev = words_of(s.drop_last());
        let c = s.last();
        if is_wsc(c) {
        } else if s.len() >= 2 && !is_wsc(s[s.len() - 2]) {
            lemma_words_nonempty(s.drop_last());
            let last2 = prev.last().push(c);
            assert forall|i: int| 0 <= i < last2.len() implies !is_wsc(last2[i]) by {
                if i < last2.len() - 1 {
                    assert(!is_wsc(prev.last()[i]));
                }
            }
            assert(good_word(last2));
        } else {
            assert(good_word(seq![c]));
        }
    }
}

/// The greedy fill of a non-empty word sequence is non-empty.
pub proof fn lemma_greedy_nonempty(ws: Seq<Seq<char>>, maxc: int)
    requires
        ws.len() > 0,
    ensures
        greedy_fill(ws, maxc).len() >= 1,
    decreases ws.len(),
{
    if ws.len() > 1 {
        lemma_greedy_nonempty(ws.drop_last(), maxc);
    }
}

/// A single word splits into itself.
pub proof fn lemma_words_of_word(w: Seq<char>)
    requires
        good_word(w),
    ensures
        words_of(w) == seq![w],
    decreases w.len(),
{
    if w.len() == 1 {
        assert(words_of(w.drop_last()) == Seq::<Seq<char>>::empty());
        assert(words_of(w) =~= seq![w]) by {
            assert(seq![w.last()] =~= w);
        }
    } else {
        let wd = w.drop_last();
        assert(good_word(wd)) by {
            assert(forall|i: int| 0 <= i < wd.len() ==> !is_wsc(#[trigger] wd[i]));
        }
        lemma_words_of_word(wd);
        assert(!is_wsc(w[w.len() - 2]));
        assert(words_of(w) == seq![wd].update(0, wd.push(w.last())));
        assert(wd.push(w.last()) =~= w);
        assert(words_of(w) =~= seq![w]);
    }
}

/// Appending a single space leaves the words unchanged.
pub proof fn lemma_words_space(x: Seq<char>)
    ensures
        words_of(x + seq![' ']) == words_of(x),
{
    let s = x + seq![' '];
    assert(s.len() > 0 && is_wsc(s.last()));
    assert(s.drop_last() =~= x);
}

/// Appending a space and then one word appends exactly that word to the
/// word sequence.
pub proof fn lemma_words_append_word(x: Seq<char>, w: Seq<char>)
    requires
        good_word(w),
    ensures
        words_of(x + seq![' '] + w) == words_of(x).push(w),
    decreases w.len(),
{
    let s = x + seq![' '] + w;
    if w.len() == 1 {
        assert(!is_wsc(s.last()));
        assert(s.len() >= 2 && is_wsc(s[s.len() - 2]));
        assert(s.drop_last() =~= x + seq![' ']);
        lemma_words_space(x);
        assert(seq![s.last()] =~= w);
        assert(words_of(s) =~= words_of(x).push(w));
    } else {
        let wd = w.drop_last();
        assert(good_word(wd)) by {
            assert(forall|i: int| 0 <= i < wd.len() ==> !is_wsc(#[trigger] wd[i]));
        }
        lemma_words_append_word(x, wd);
        assert(!is_wsc(s.last()));
        assert(!is_wsc(s[s.len() - 2])) by {
            assert(s[s.len() - 2] == w[w.len() - 2]);
        }
        assert(s.drop_last() =~= x + seq![' '] + wd);
        let prev = words_of(x).push(wd);
        assert(words_of(s) == prev.update(prev.len() - 1, prev.last().push(w.last())));
        assert(prev.last() == wd);
        assert(wd.push(w.last()) =~= w);
        assert(words_of(s) =~= words_of(x).push(w));
    }
}

/// Splitting the space-join of a sequence of words recovers the words.
pub proof fn lemma_words_sp_join(ws: Seq<Seq<char>>)
    requires
        good_words(ws),
    ensures
        words_of(sp_join(ws)) == ws,
    decreases ws.len(),
{
    if ws.len() == 0 {
        assert(words_of(sp_join(ws)) =~= ws);
    } else if ws.len() == 1 {
        lemma_words_of_word(ws[0]);
        assert(words_of(sp_join(ws)) =~= ws);
    } else {
        let wd = ws.drop_last();
        assert(good_words(wd)) by {
            assert(forall|i: int| 0 <= i < wd.len() ==> good_word(#[trigger] wd[i]));
        }
        lemma_words_sp_join(wd);
        lemma_words_append_word(sp_join(wd), ws.last());
        assert(words_of(sp_join(ws)) == wd.push(ws.last()));
        assert(wd.push(ws.last()) =~= ws);
    }
}

/// Replacing the last line by itself extended with a space and a word
/// extends the space-join by that space and word.
pub proof fn lemma_sp_join_extend_last(u: Seq<Seq<char>>, w: Seq<char>)
    requires
        u.len() >= 1,
    ensures
        sp_join(u.update(u.len() - 1, u.last() + seq![' '] + w)) == sp_join(u) + seq![' '] + w,
{
    let v = u.update(u.len() - 1, u.last() + seq![' '] + w);
    if u.len() == 1 {
        assert(sp_join(v) == v[0]);
        assert(v[0] == u[0] + seq![' '] + w);
        assert(sp_join(u) == u[0]);
    } else {
        assert(v.drop_last() =~= u.drop_last());
        assert(sp_join(v) == sp_join(u.drop_last()) + seq![' '] + (u.last() + seq![' '] + w));
        assert(sp_join(v) =~= sp_join(u) + seq![' '] + w);
    }
}

/// The space-join of the greedy fill equals the space-join of the words:
/// the fill only regroups the words, inserting single spaces.
pub proof fn lemma_sp_join_greedy(ws: Seq<Seq<char>>, maxc: int)
    ensures
        sp_join(greedy_fill(ws, maxc)) == sp_join(ws),
    decreases ws.len(),
{
    if ws.len() == 0 {
    } else {
        let wd = ws.drop_last();
        let prev = greedy_fill(wd, maxc);
        let w = ws.last();
        lemma_sp_join_greedy(wd, maxc);
        if prev.len() == 0 {
            assert(wd.len() == 0) by {
                if wd.len() > 0 {
                    lemma_greedy_nonempty(wd, maxc);
                }
            }
            assert(ws =~= seq![w]);
            assert(sp_join(greedy_fill(ws, maxc)) == w);
        } else {
            assert(wd.len() >= 1);
            assert(sp_join(ws) == sp_join(wd) + seq![' '] + w);
            if prev.last().len() + 1 + w.len() <= maxc {
                lemma_sp_join_extend_last(prev, w);
            } else {
                let v = prev.push(w);
                assert(v.drop_last() =~= prev);
                assert(sp_join(v) == sp_join(prev) + seq![' '] + w);
            }
        }
    }
}

/// Concatenating the lines of `wrap_spec` with single spaces reconstructs
/// the original word sequence in order, and the wrap is never empty.
pub proof fn lemma_wrap_reconstructs(text: Seq<char>, maxc: int)
    ensures
        wrap_spec(text, maxc).len() > 0,
        words_of(sp_join(wrap_spec(text, maxc))) == words_of(text),
{
    if words_of(text).len() == 0 {
        assert(sp_join(seq![text]) == text);
    } else {
        lemma_greedy_nonempty(words_of(text), maxc);
        lemma_sp_join_greedy(words_of(text), maxc);
        lemma_words_good(text);
        lemma_words_sp_join(words_of(text));
    }
}

/// No line of the greedy fill exceeds the bound, except a line that is a
/// single unsplit word.
pub proof fn lemma_greedy_line_lengths(ws: Seq<Seq<char>>, maxc: int)
    requires
        good_words(ws),
    ensures
        forall|i: int|
            0 <= i < greedy_fill(ws, maxc).len() ==> (#[trigger] greedy_fill(ws, maxc)[i]).len()
                <= maxc || words_of(greedy_fill(ws, maxc)[i]) == seq![greedy_fill(ws, maxc)[i]],
    decreases ws.len(),
{
    if ws.len() > 0 {
        let wd = ws.drop_last();
        assert(good_words(wd)) by {
            assert(forall|i: int| 0 <= i < wd.len() ==> good_word(#[trigger] wd[i]));
        }
        lemma_greedy_line_lengths(wd, maxc);
        let prev = greedy_fill(wd, maxc);
        let w = ws.last();
        let cur = greedy_fill(ws, maxc);
        assert(good_word(w));
        if prev.len() == 0 {
            lemma_words_of_word(w);
            assert(cur == seq![w]);
        } else if prev.last().len() + 1 + w.len() <= maxc {
            assert forall|i: int| 0 <= i < cur.len() implies (#[trigger] cur[i]).len() <= maxc
                || words_of(cur[i]) == seq![cur[i]] by {
                if i < cur.len() - 1 {
                    assert(cur[i] == prev[i]);
                } else {
                    assert(cur[i].len() <= maxc);
                }
            }
        } else {
            lemma_words_of_word(w);
            assert forall|i: int| 0 <= i < cur.len() implies (#[trigger] cur[i]).len() <= maxc
                || words_of(cur[i]) == seq![cur[i]] by {
                if i < cur.len() - 1 {
                    assert(cur[i] == prev[i]);
                } else {
                    assert(cur[i] == w);
                }
            }
        }
    }
}

/// No line of `wrap_spec` exceeds the bound, except a line that is a
/// single word longer than the bound, which is preserved unsplit.
pub proof fn lemma_wrap_line_lengths(text: Seq<char>, maxc: int)
    requires
        words_of(text).len() > 0,
    ensures
        forall|i: int|
            0 <= i < wrap_spec(text, maxc).len() ==> (#[trigger] wrap_spec(text, maxc)[i]).len()
                <= maxc || words_of(wrap_spec(text, maxc)[i]) == seq![wrap_spec(text, maxc)[i]],
{
    lemma_words_good(text);
    lemma_greedy_line_lengths(words_of(text), maxc);
}

/// There are at most as many words as characters.
pub proof fn lemma_words_len_bound(s: Seq<char>)
    ensures
        words_of(s).len() <= s.len(),
    decreases s.len(),
{
    if s.len() > 0 {
        lemma_words_len_bound(s.drop_last());
        if s.len() >= 2 && !is_wsc(s.last()) && !is_wsc(s[s.len() - 2]) {
            lemma_words_nonempty(s.drop_last());
        }
    }
}

/// There are at most as many lines as words.
pub proof fn lemma_greedy_len_bound(ws: Seq<Seq<char>>, maxc: int)
    ensures
        greedy_fill(ws, maxc).len() <= ws.len(),
    decreases ws.len(),
{
    if ws.len() > 0 {
        lemma_greedy_len_bound(ws.drop_last(), maxc);
    }
}

/// A wrap never returns more lines than the text has characters, plus
/// the one line returned for a text without words.
pub proof fn lemma_wrap_len_bound(text: Seq<char>, maxc: int)
    ensures
        wrap_spec(text, maxc).len() <= text.len() + 1,
{
    lemma_words_len_bound(text);
    lemma_greedy_len_bound(words_of(text), maxc);
}

/// The views of a sequence of strings.
pub open spec fn views(v: Seq<String>) -> Seq<Seq<char>> {
    v.map_values(|s: String| s@)
}

/// Whether a character is one of the recognised whitespace separators.
fn is_ws_exec(c: char) -> (r: bool)
    ensures
        r == is_wsc(c),
{
    let u = c as u32;
    u == 0x9 || u == 0xA || u == 0xB || u == 0xC || u == 0xD || u == 0x20 || u == 0x85 || u == 0xA0
        || u == 0x1680 || (0x2000 <= u && u <= 0x200A) || u == 0x2028 || u == 0x2029 || u == 0x202F
        || u == 0x205F || u == 0x3000
}

/// Splits a string into its whitespace-separated words.
pub fn split_words(text: &str) -> (ws: Vec<String>)
    ensures
        views(ws@) == words_of(text@),
{
    let n = text.unicode_len();
    let mut ws: Vec<String> = Vec::new();
    let mut start: usize = 0;
    let mut in_word: bool = false;
    let mut i: usize = 0;
    while i < n
        invariant
            i <= n,
            n == text@.len(),
            in_word <==> (i > 0 && !is_wsc(text@[i as int - 1])),
            in_word ==> start < i && (forall|j: int|
                start <= j < i ==> !is_wsc(#[trigger] text@[j])),
            in_word ==> views(ws@) == words_of(text@.take(i as int)).drop_last() && words_of(
                text@.take(i as int),
            ).last() == text@.subrange(start as int, i as int) && words_of(
                text@.take(i as int),
            ).len() >= 1,
            !in_word ==> views(ws@) == words_of(text@.take(i as int)),
        decreases n - i,
    {
        let c = text.get_char(i);
        proof {
            assert(text@.take(i as int + 1).drop_last() =~= text@.take(i as int));
            assert(text@.take(i as int + 1).last() == text@[i as int]);
        }
        if is_ws_exec(c) {
            if in_word {
                let word = text.substring_char(start, i);
                let ghost prev = words_of(text@.take(i as int));
                let ghost ws0 = ws@;
                ws.push(String::from_str(word));
                proof {
                    assert(views(ws@) =~= views(ws0).push(word@));
                    assert(prev =~= prev.drop_last().push(prev.last()));
                }
                in_word = false;
            }
        } else {
            if !in_word {
                start = i;
                in_word = true;
                proof {
                    let s1 = text@.take(i as int + 1);
                    assert(words_of(s1) == words_of(text@.take(i as int)).push(
                        seq![text@[i as int]],
                    ));
                    assert(words_of(s1).last() =~= text@.subrange(i as int, i as int + 1));
                }
            } else {
                proof {
                    let s1 = text@.take(i as int + 1);
                    let prev = words_of(text@.take(i as int));
                    assert(s1.len() >= 2 && !is_wsc(s1[s1.len() - 2]));
                    assert(words_of(s1) == prev.update(prev.len() - 1, prev.last().push(
                        text@[i as int],
                    )));
                    assert(prev.last().push(text@[i as int]) =~= text@.subrange(
                        start as int,
                        i as int + 1,
                    ));
                    assert(words_of(s1).drop_last() =~= prev.drop_last());
                }
            }
        }
        i += 1;
    }
    proof {
        assert(text@.take(n as int) =~= text@);
    }
    if in_word {
        let word = text.substring_char(start, n);
        let ghost prev = words_of(text@);
        let ghost ws0 = ws@;
        ws.push(String::from_str(word));
        proof {
            assert(views(ws@) =~= views(ws0).push(word@));
            assert(prev =~= prev.drop_last().push(prev.last()));
        }
    }
    ws
}

/// Greedily fills lines from the given words; see [`greedy_fill`].
pub fn fill_lines(ws: &Vec<String>, max_chars: usize) -> (lines: Vec<String>)
    ensures
        views(lines@) == greedy_fill(views(ws@), max_chars as int),
{
    let mut lines: Vec<String> = Vec::new();
    let mut current: String = String::new();
    let mut k: usize = 0;
    while k < ws.len()
        invariant
            k <= ws.len(),
            k == 0 ==> lines@.len() == 0,
            k > 0 ==> greedy_fill(views(ws@).take(k as int), max_chars as int).len() >= 1
                && views(lines@) == greedy_fill(
                views(ws@).take(k as int),
                max_chars as int,
            ).drop_last() && current@ == greedy_fill(
                views(ws@).take(k as int),
                max_chars as int,
            ).last(),
        decreases ws.len() - k,
    {
        let w = &ws[k];
        let ghost wsv = views(ws@);
        proof {
            assert(wsv.take(k as int + 1).drop_last() =~= wsv.take(k as int));
            assert(wsv.take(k as int + 1).last() == wsv[k as int]);
            if k > 0 {
                lemma_greedy_nonempty(wsv.take(k as int + 1), max_chars as int);
            }
        }
        if k == 0 {
            current = w.clone();
        } else {
            let ghost prev = greedy_fill(wsv.take(k as int), max_chars as int);
            let cur_len = current.as_str().unicode_len();
            let w_len = w.as_str().unicode_len();
            if cur_len <= max_chars && w_len < max_chars - cur_len {
                proof {
                    assert(prev.last().len() + 1 + wsv[k as int].len() <= max_chars);
                    reveal_strlit(" ");
                    assert(" "@ =~= seq![' ']);
                }
                current.append(" ");
                current.append(w.as_str());
                proof {
                    let next = greedy_fill(wsv.take(k as int + 1), max_chars as int);
                    assert(next == prev.update(prev.len() - 1, prev.last() + seq![' ']
                        + wsv[k as int]));
                    assert(next.drop_last() =~= prev.drop_last());
                }
            } else {
                proof {
                    assert(!(prev.last().len() + 1 + wsv[k as int].len() <= max_chars));
                }
                lines.push(current);
                current = w.clone();
                proof {
                    let next = greedy_fill(wsv.take(k as int + 1), max_chars as int);
                    assert(next == prev.push(wsv[k as int]));
                    assert(next.drop_last() =~= prev);
                    assert(views(lines@) =~= prev.drop_last().push(prev.last()));
                }
            }
        }
        k += 1;
    }
    proof {
        assert(views(ws@).take(ws@.len() as int) =~= views(ws@));
    }
    if ws.len() > 0 {
        lines.push(current);
        proof {
            let whole = greedy_fill(views(ws@), max_chars as int);
            assert(views(lines@) =~= whole.drop_last().push(whole.last()));
            assert(whole =~= whole.drop_last().push(whole.last()));
        }
    }
    lines
}

/// Wraps `text` to fit within `max_width_mpt` millipoints at the given
/// font size: the greedy fill of the words at the capacity
/// [`max_chars_of`].  A text without words (empty or all whitespace)
/// yields a single line holding the original text.
pub fn wrap_text(text: &str, max_width_mpt: i64, font_size: u32) -> (lines: Vec<String>)
    requires
        1 <= font_size <= 100000,
        0 <= max_width_mpt <= 2000000,
    ensures
        views(lines@) == wrap_spec(text@, max_chars_of(max_width_mpt as int, font_size as int)),
        lines@.len() > 0,
{
    let cw: i64 = (font_size as i64) * 600;
    let mut mc: i64 = max_width_mpt / cw;
    if mc < 10 {
        mc = 10;
    }
    let max_chars: usize = mc as usize;
    let ws = split_words(text);
    if ws.len() == 0 {
        let mut lines: Vec<String> = Vec::new();
        lines.push(String::from_str(text));
        proof {
            assert(views(lines@) =~= seq![text@]);
        }
        lines
    } else {
        let lines = fill_lines(&ws, max_chars);
        proof {
            lemma_greedy_nonempty(views(ws@), max_chars as int);
        }
        lines
    }
}

} // verus!
