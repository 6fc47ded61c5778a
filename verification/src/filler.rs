//! Pause-aware filler suppression: a word from the user's filler list ("um",
//! "uh", ...) is dropped only when a real silence brackets it, and kept when
//! it sits tight against its neighbours ("oh no", "like this").
use vstd::prelude::*;

use crate::text::{
    char_is_alphanumeric, char_to_lowercase, chars_of, eq_chars, is_alnum, join, lower_of,
    push_all, string_from_chars,
};

verus! {

/// One word with its Whisper timing, in milliseconds from the clip start.
#[derive(Debug, Clone)]
pub struct TimedWord {
    /// The word as transcribed, keeping any punctuation ("store.", "um,").
    pub text: String,
    pub start_ms: i64,
    pub end_ms: i64,
}

impl TimedWord {
    pub fn new(text: &str, start_ms: i64, end_ms: i64) -> (w: Self)
        ensures
            w.text@ == text@,
            w.start_ms == start_ms,
            w.end_ms == end_ms,
    {
        TimedWord { text: text.to_string(), start_ms, end_ms }
    }
}

/// Lowercased letters and digits of a word, everything else dropped, so
/// "Um," and "uh." match the list entries "um" and "uh".
pub open spec fn normalize(s: Seq<char>) -> Seq<char>
    decreases s.len(),
{
    if s.len() == 0 {
        Seq::<char>::empty()
    } else {
        normalize(s.drop_last()) + if is_alnum(s.last()) {
            lower_of(s.last())
        } else {
            Seq::<char>::empty()
        }
    }
}

/// The word normalizes to a non-empty entry of the filler list.
pub open spec fn is_filler(word: Seq<char>, fillers: Seq<String>) -> bool {
    normalize(word).len() > 0 && exists|j: int|
        0 <= j < fillers.len() && #[trigger] normalize(fillers[j]@) == normalize(word)
}

/// The silence between word `i` and its left neighbour, if it has one.
pub open spec fn gap_before(words: Seq<TimedWord>, i: int) -> int {
    words[i].start_ms - words[i - 1].end_ms
}

/// The silence between word `i` and its right neighbour, if it has one.
pub open spec fn gap_after(words: Seq<TimedWord>, i: int) -> int {
    words[i + 1].start_ms - words[i].end_ms
}

/// Word `i` is a hesitation: a filler whose larger gap to an existing
/// neighbour reaches the threshold, or a filler standing alone.
pub open spec fn removed(words: Seq<TimedWord>, fillers: Seq<String>, threshold_ms: i64, i: int) -> bool {
    is_filler(words[i].text@, fillers) && {
        let has_before = i > 0;
        let has_after = i < words.len() - 1;
        if has_before && has_after {
            gap_before(words, i) >= threshold_ms || gap_after(words, i) >= threshold_ms
        } else if has_before {
            gap_before(words, i) >= threshold_ms
        } else if has_after {
            gap_after(words, i) >= threshold_ms
        } else {
            true
        }
    }
}

/// The texts of the words among the first `k` that are kept, in order.
pub open spec fn kept_words(words: Seq<TimedWord>, fillers: Seq<String>, threshold_ms: i64, k: int) -> Seq<Seq<char>>
    decreases k,
{
    if k <= 0 {
        Seq::<Seq<char>>::empty()
    } else if removed(words, fillers, threshold_ms, k - 1) {
        kept_words(words, fillers, threshold_ms, k - 1)
    } else {
        kept_words(words, fillers, threshold_ms, k - 1).push(words[k - 1].text@)
    }
}

/// The suppressed text: the kept words joined by single spaces.
pub open spec fn suppressed(words: Seq<TimedWord>, fillers: Seq<String>, threshold_ms: i64) -> Seq<char> {
    join(kept_words(words, fillers, threshold_ms, words.len() as int), " "@)
}

/// Every entry of the normalized list is non-empty and is the normal form of
/// one of the first `j` list words.
pub open spec fn fillers_sound(fillers: Seq<Vec<char>>, list: Seq<String>, j: int) -> bool {
    &&& forall|k: int| 0 <= k < fillers.len() ==> fillers[k]@.len() > 0
    &&& forall|k: int|
        #![trigger fillers[k]]
        0 <= k < fillers.len() ==> exists|m: int|
            0 <= m < j && #[trigger] normalize(list[m]@) == fillers[k]@
}

/// Every non-empty normal form of the first `j` list words is in the list.
pub open spec fn fillers_complete(fillers: Seq<Vec<char>>, list: Seq<String>, j: int) -> bool {
    forall|m: int|
        0 <= m < j && normalize(list[m]@).len() > 0 ==> exists|k: int|
            0 <= k < fillers.len() && fillers[k]@ == #[trigger] normalize(list[m]@)
}

/// Lowercase + strip everything but letters and digits.
pub fn normalize_word(word: &str) -> (r: Vec<char>)
    ensures
        r@ == normalize(word@),
{
    let chars = chars_of(word);
    let mut out: Vec<char> = Vec::new();
    let mut i: usize = 0;
    while i < chars.len()
        invariant
            chars@ == word@,
            i <= chars.len(),
            out@ == normalize(chars@.take(i as int)),
        decreases chars.len() - i,
    {
        assert(chars@.take(i as int + 1).drop_last() == chars@.take(i as int));
        assert(chars@.take(i as int + 1).last() == chars@[i as int]);
        if char_is_alphanumeric(chars[i]) {
            let lower = char_to_lowercase(chars[i]);
            push_all(&mut out, &lower);
        } else {
            assert(out@ == out@ + Seq::<char>::empty());
        }
        i = i + 1;
    }
    assert(chars@.take(chars.len() as int) == chars@);
    out
}

/// Removes the filler words that a pause of at least `threshold_ms` brackets
/// and joins the kept words with single spaces. The list is matched ignoring
/// case and punctuation; a filler at the start or end of the clip counts only
/// its one real neighbour, and a filler that is the whole utterance goes.
pub fn suppress_fillers(words: &Vec<TimedWord>, filler_words: &Vec<String>, threshold_ms: i64) -> (r: String)
    ensures
        r@ == suppressed(words@, filler_words@, threshold_ms),
{
    // The filler list, normalized once; empty entries never match.
    let mut fillers: Vec<Vec<char>> = Vec::new();
    let mut j: usize = 0;
    while j < filler_words.len()
        invariant
            j <= filler_words.len(),
            fillers_sound(fillers@, filler_words@, j as int),
            fillers_complete(fillers@, filler_words@, j as int),
        decreases filler_words.len() - j,
    {
        let f = normalize_word(filler_words[j].as_str());
        if f.len() > 0 {
            let ghost old_fillers = fillers@;
            fillers.push(f);
            assert(fillers@[old_fillers.len() as int]@ == normalize(filler_words@[j as int]@));
            assert forall|m: int|
                0 <= m < j + 1 && normalize(filler_words@[m]@).len() > 0 implies exists|k: int|
                0 <= k < fillers.len() && fillers@[k]@ == #[trigger] normalize(filler_words@[m]@) by {
                if m < j {
                    let k = choose|k: int|
                        0 <= k < old_fillers.len() && old_fillers[k]@ == normalize(filler_words@[m]@);
                    assert(fillers@[k] == old_fillers[k]);
                } else {
                    assert(fillers@[old_fillers.len() as int]@ == normalize(filler_words@[m]@));
                }
            }
        }
        j = j + 1;
    }

    let n = words.len();
    let mut out: Vec<char> = Vec::new();
    let mut kept_count: usize = 0;
    let mut i: usize = 0;
    while i < n
        invariant
            n == words.len(),
            i <= n,
            j == filler_words.len(),
            fillers_sound(fillers@, filler_words@, j as int),
            fillers_complete(fillers@, filler_words@, j as int),
            kept_count <= i,
            kept_count == kept_words(words@, filler_words@, threshold_ms, i as int).len(),
            out@ == join(kept_words(words@, filler_words@, threshold_ms, i as int), " "@),
        decreases n - i,
    {
        let word = &words[i];
        let normalized = normalize_word(word.text.as_str());
        let mut filler = false;
        if normalized.len() > 0 {
            let mut k: usize = 0;
            while k < fillers.len() && !filler
                invariant
                    k <= fillers.len(),
                    filler ==> exists|q: int| 0 <= q < fillers.len() && fillers@[q]@ == normalized@,
                    !filler ==> forall|q: int| 0 <= q < k ==> fillers@[q]@ != normalized@,
                decreases fillers.len() - k,
            {
                if eq_chars(&fillers[k], &normalized) {
                    filler = true;
                }
                k = k + 1;
            }
            proof {
                if filler {
                    assert(is_filler(words@[i as int].text@, filler_words@));
                } else {
                    if is_filler(words@[i as int].text@, filler_words@) {
                        let m = choose|m: int|
                            0 <= m < filler_words.len() && #[trigger] normalize(filler_words@[m]@)
                                == normalize(words@[i as int].text@);
                        let q = choose|q: int|
                            0 <= q < fillers.len() && fillers@[q]@ == #[trigger] normalize(
                                filler_words@[m]@,
                            );
                        assert(false);
                    }
                }
            }
        }
        assert(filler == is_filler(words@[i as int].text@, filler_words@));
        let remove = if filler {
            let before: Option<i128> = if i != 0 {
                Some(word.start_ms as i128 - words[i - 1].end_ms as i128)
            } else {
                None
            };
            let after: Option<i128> = if i + 1 != n {
                Some(words[i + 1].start_ms as i128 - word.end_ms as i128)
            } else {
                None
            };
            match (before, after) {
                (Some(b), Some(a)) => b >= threshold_ms as i128 || a >= threshold_ms as i128,
                (Some(b), None) => b >= threshold_ms as i128,
                (None, Some(a)) => a >= threshold_ms as i128,
                (None, None) => true,
            }
        } else {
            false
        };
        assert(remove == removed(words@, filler_words@, threshold_ms, i as int));
        if !remove {
            if kept_count > 0 {
                crate::text::push_str(&mut out, " ");
            }
            let text = chars_of(word.text.as_str());
            push_all(&mut out, &text);
            kept_count = kept_count + 1;
            proof {
                let prev = kept_words(words@, filler_words@, threshold_ms, i as int);
                let next = prev.push(words@[i as int].text@);
                if prev.len() > 0 {
                    assert(next.drop_last() == prev);
                }
            }
        }
        i = i + 1;
    }
    string_from_chars(&out)
}

/// A filler with a pause of at least `threshold_ms` to a neighbour on
/// either side is dropped: one long enough pause suffices, and the word adds
/// nothing to the kept words.
pub proof fn law_paused_filler_is_dropped(words: Seq<TimedWord>, fillers: Seq<String>, threshold_ms: i64, i: int)
    requires
        0 <= i < words.len(),
        is_filler(words[i].text@, fillers),
        (i > 0 && words[i].start_ms - words[i - 1].end_ms >= threshold_ms) || (i + 1 < words.len()
            && words[i + 1].start_ms - words[i].end_ms >= threshold_ms),
    ensures
        kept_words(words, fillers, threshold_ms, i + 1) == kept_words(words, fillers, threshold_ms, i),
{
}

/// A filler that stands alone, with no neighbour at all, is dropped.
pub proof fn law_lone_filler_is_dropped(words: Seq<TimedWord>, fillers: Seq<String>, threshold_ms: i64)
    requires
        words.len() == 1,
        is_filler(words[0].text@, fillers),
    ensures
        kept_words(words, fillers, threshold_ms, 1) == Seq::<Seq<char>>::empty(),
{
    assert(removed(words, fillers, threshold_ms, 0));
    assert(kept_words(words, fillers, threshold_ms, 0) == Seq::<Seq<char>>::empty());
}

/// A filler tight against every neighbour it has (each gap below
/// `threshold_ms`) is kept, in place.
pub proof fn law_tight_filler_is_kept(words: Seq<TimedWord>, fillers: Seq<String>, threshold_ms: i64, i: int)
    requires
        0 <= i < words.len(),
        words.len() > 1,
        i > 0 ==> words[i].start_ms - words[i - 1].end_ms < threshold_ms,
        i + 1 < words.len() ==> words[i + 1].start_ms - words[i].end_ms < threshold_ms,
    ensures
        kept_words(words, fillers, threshold_ms, i + 1) == kept_words(words, fillers, threshold_ms, i).push(
            words[i].text@,
        ),
{
}

/// A word that is not on the filler list is always kept, in place, whatever
/// the pauses around it.
pub proof fn law_other_words_are_kept(words: Seq<TimedWord>, fillers: Seq<String>, threshold_ms: i64, i: int)
    requires
        0 <= i < words.len(),
        !is_filler(words[i].text@, fillers),
    ensures
        kept_words(words, fillers, threshold_ms, i + 1) == kept_words(words, fillers, threshold_ms, i).push(
            words[i].text@,
        ),
{
}

/// With an empty filler list every word is kept: the output is the words'
/// texts in order.
pub proof fn law_no_fillers_keeps_everything(words: Seq<TimedWord>, threshold_ms: i64, k: int)
    requires
        0 <= k <= words.len(),
    ensures
        kept_words(words, Seq::<String>::empty(), threshold_ms, k) == words.take(k).map_values(
            |w: TimedWord| w.text@,
        ),
    decreases k,
{
    if k > 0 {
        law_no_fillers_keeps_everything(words, threshold_ms, k - 1);
        assert(words.take(k).map_values(|w: TimedWord| w.text@) =~= words.take(k - 1).map_values(
            |w: TimedWord| w.text@,
        ).push(words[k - 1].text@));
    }
}

} // verus!
