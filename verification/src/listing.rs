//! Scoreboard rendering: sorting (name, score) pairs by descending score
//! and joining them into the plain and markup forms of a reply.

use vstd::prelude::*;
use crate::text::chars_of;
use crate::text::i32_to_string;
use crate::text::int_str;
use crate::text::string_from_chars;
use crate::text::subvec;
use crate::user::HtmlAndTextAnswer;
use vstd::string::StringExecFns;

verus! {

/// The view of each pair: the name's characters and the score as an
/// integer.
pub open spec fn entry_views(s: Seq<(String, i32)>) -> Seq<(Seq<char>, int)> {
    s.map_values(|p: (String, i32)| (p.0@, p.1 as int))
}

/// Scores never increase along the sequence.
pub open spec fn scores_sorted_desc(s: Seq<(String, i32)>) -> bool {
    forall|i: int, j: int|
        #![trigger s[i], s[j]]
        0 <= i < j < s.len() ==> s[i].1 >= s[j].1
}

/// One pair in the plain form: `name: score,`.
pub open spec fn entry_text(p: (String, i32)) -> Seq<char> {
    p.0@ + ": "@ + int_str(p.1 as int) + ","@
}

/// One pair in the markup form: `name: <b>score</b><br>`.
pub open spec fn entry_html(p: (String, i32)) -> Seq<char> {
    p.0@ + ": <b>"@ + int_str(p.1 as int) + "</b><br>"@
}

/// All pairs in the plain form, concatenated.
pub open spec fn entries_text(s: Seq<(String, i32)>) -> Seq<char>
    decreases s.len(),
{
    if s.len() == 0 {
        Seq::<char>::empty()
    } else {
        entries_text(s.drop_last()) + entry_text(s.last())
    }
}

/// All pairs in the markup form, concatenated.
pub open spec fn entries_html(s: Seq<(String, i32)>) -> Seq<char>
    decreases s.len(),
{
    if s.len() == 0 {
        Seq::<char>::empty()
    } else {
        entries_html(s.drop_last()) + entry_html(s.last())
    }
}

/// The full plain reply: the heading, every pair, and the trailing comma
/// removed.
pub open spec fn scoreboard_text(prefix: Seq<char>, s: Seq<(String, i32)>) -> Seq<char> {
    let full = prefix + entries_text(s);
    full.take(full.len() as int - 1)
}

/// The full markup reply: the heading, every pair, and the trailing line
/// break removed.
pub open spec fn scoreboard_html(prefix: Seq<char>, s: Seq<(String, i32)>) -> Seq<char> {
    let full = prefix + entries_html(s);
    full.take(full.len() as int - 4)
}

/// Views and element removal commute.
pub proof fn lemma_entry_views_remove(s: Seq<(String, i32)>, i: int)
    requires
        0 <= i < s.len(),
    ensures
        entry_views(s.remove(i)) == entry_views(s).remove(i),
{
    assert(entry_views(s.remove(i)) =~= entry_views(s).remove(i));
}

/// Views and push commute.
pub proof fn lemma_entry_views_push(s: Seq<(String, i32)>, p: (String, i32))
    requires
        true,
    ensures
        entry_views(s.push(p)) == entry_views(s).push((p.0@, p.1 as int)),
{
    assert(entry_views(s.push(p)) =~= entry_views(s).push((p.0@, p.1 as int)));
}

/// Sorts pairs by descending score; equal scores keep no particular
/// order, but every pair survives exactly once.
pub fn sort_entries_desc(entries: Vec<(String, i32)>) -> (r: Vec<(String, i32)>)
    ensures
        scores_sorted_desc(r@),
        entry_views(r@).to_multiset() == entry_views(entries@).to_multiset(),
{
    broadcast use vstd::prelude::Seq::to_multiset_ensures;
    broadcast use vstd::multiset::group_multiset_axioms;

    let mut input = entries;
    let mut out: Vec<(String, i32)> = Vec::new();
    proof {
        assert(entry_views(out@) =~= Seq::<(Seq<char>, int)>::empty());
        vstd::multiset::lemma_multiset_empty_len(entry_views(out@).to_multiset());
        assert(entry_views(out@).to_multiset().len() == 0);
        assert(entry_views(out@).to_multiset().add(entry_views(input@).to_multiset())
            =~= entry_views(entries@).to_multiset());
    }
    while input.len() > 0
        invariant
            scores_sorted_desc(out@),
            forall|i: int, j: int|
                #![trigger out@[i], input@[j]]
                0 <= i < out@.len() && 0 <= j < input@.len() ==> out@[i].1 >= input@[j].1,
            entry_views(out@).to_multiset().add(entry_views(input@).to_multiset()) == entry_views(
                entries@,
            ).to_multiset(),
        decreases input.len(),
    {
        let mut best: usize = 0;
        let mut k: usize = 1;
        while k < input.len()
            invariant
                input@.len() > 0,
                best < k <= input@.len(),
                forall|j: int| 0 <= j < k ==> input@[best as int].1 >= (#[trigger] input@[j]).1,
            decreases input@.len() - k,
        {
            if input[k].1 > input[best].1 {
                best = k;
            }
            k = k + 1;
        }
        let ghost old_input = input@;
        let ghost old_out = out@;
        let elem = input.remove(best);
        out.push(elem);
        proof {
            broadcast use vstd::prelude::Seq::to_multiset_ensures;
            broadcast use vstd::multiset::group_multiset_axioms;

            lemma_entry_views_remove(old_input, best as int);
            lemma_entry_views_push(old_out, elem);
            let ev = (elem.0@, elem.1 as int);
            entry_views(old_input).to_multiset_ensures();
            entry_views(old_out).to_multiset_ensures();
            assert(entry_views(old_input)[best as int] == ev);
            assert(entry_views(input@) == entry_views(old_input).remove(best as int));
            assert(entry_views(old_input).remove(best as int).to_multiset() =~= entry_views(
                old_input,
            ).to_multiset().remove(ev));
            assert(entry_views(out@) == entry_views(old_out).push(ev));
            assert(entry_views(old_out).push(ev).to_multiset() =~= entry_views(
                old_out,
            ).to_multiset().insert(ev));
            assert(entry_views(old_input).to_multiset().count(ev) > 0);
            assert(entry_views(out@).to_multiset().add(entry_views(input@).to_multiset())
                =~= entry_views(old_out).to_multiset().add(entry_views(old_input).to_multiset()));
        }
    }
    proof {
        entry_views(input@).to_multiset_ensures();
        assert(entry_views(input@) =~= Seq::<(Seq<char>, int)>::empty());
        vstd::multiset::lemma_multiset_empty_len(entry_views(input@).to_multiset());
        assert(entry_views(out@).to_multiset() =~= entry_views(entries@).to_multiset());
    }
    out
}

/// Concatenation grows one pair at a time, at the end.
pub proof fn lemma_entries_text_push(s: Seq<(String, i32)>, p: (String, i32))
    ensures
        entries_text(s.push(p)) == entries_text(s) + entry_text(p),
        entries_html(s.push(p)) == entries_html(s) + entry_html(p),
{
    assert(s.push(p).drop_last() =~= s);
    assert(s.push(p).last() == p);
}

/// Renders pairs, already gathered for one room, as the original
/// scoreboard replies do: sorted by descending score, joined, and with
/// the trailing separator removed.
pub fn scoreboard_answer(entries: Vec<(String, i32)>, text_prefix: &str, html_prefix: &str) -> (r:
    HtmlAndTextAnswer)
    requires
        entries@.len() > 0,
        text_prefix@.len() > 0,
        html_prefix@.len() > 0,
    ensures
        exists|s: Seq<(String, i32)>|
            {
                &&& #[trigger] scores_sorted_desc(s)
                &&& entry_views(s).to_multiset() == entry_views(entries@).to_multiset()
                &&& r.text@ == scoreboard_text(text_prefix@, s)
                &&& r.html@ == scoreboard_html(html_prefix@, s)
            },
{
    let ghost n_entries = entries@.len();
    let sorted = sort_entries_desc(entries);
    proof {
        broadcast use vstd::prelude::Seq::to_multiset_ensures;

        assert(entry_views(sorted@).len() == entry_views(sorted@).to_multiset().len());
        assert(sorted@.len() == n_entries);
    }
    let mut text = String::new();
    text.append(text_prefix);
    let mut html = String::new();
    html.append(html_prefix);
    let mut i: usize = 0;
    proof {
        assert(sorted@.take(0) =~= Seq::<(String, i32)>::empty());
        assert(text@ =~= text_prefix@ + entries_text(sorted@.take(0)));
        assert(html@ =~= html_prefix@ + entries_html(sorted@.take(0)));
    }
    while i < sorted.len()
        invariant
            i <= sorted@.len(),
            text@ == text_prefix@ + entries_text(sorted@.take(i as int)),
            html@ == html_prefix@ + entries_html(sorted@.take(i as int)),
        decreases sorted@.len() - i,
    {
        let ghost pre = sorted@.take(i as int);
        let ghost post = sorted@.take(i + 1 as int);
        let num = i32_to_string(sorted[i].1);
        text.append(sorted[i].0.as_str());
        text.append(": ");
        text.append(num.as_str());
        text.append(",");
        html.append(sorted[i].0.as_str());
        html.append(": <b>");
        html.append(num.as_str());
        html.append("</b><br>");
        i = i + 1;
        proof {
            assert(pre.push(sorted@[i - 1]) =~= post);
            lemma_entries_text_push(pre, sorted@[i - 1]);
            assert(text@ =~= text_prefix@ + entries_text(post));
            assert(html@ =~= html_prefix@ + entries_html(post));
        }
    }
    proof {
        assert(sorted@.take(sorted@.len() as int) =~= sorted@);
        reveal_strlit(",");
        reveal_strlit("</b><br>");
        assert(entries_text(sorted@).len() >= 1);
        assert(entries_html(sorted@).len() >= 4);
    }
    let text_chars = chars_of(text.as_str());
    let trimmed_text = subvec(&text_chars, 0, text_chars.len() - 1);
    let html_chars = chars_of(html.as_str());
    let trimmed_html = subvec(&html_chars, 0, html_chars.len() - 4);
    let r = HtmlAndTextAnswer {
        text: string_from_chars(&trimmed_text),
        html: string_from_chars(&trimmed_html),
    };
    proof {
        let s = sorted@;
        assert(r.text@ =~= scoreboard_text(text_prefix@, s));
        assert(r.html@ =~= scoreboard_html(html_prefix@, s));
        assert(scores_sorted_desc(s) && entry_views(s).to_multiset() == entry_views(
            entries@,
        ).to_multiset() && r.text@ == scoreboard_text(text_prefix@, s) && r.html@
            == scoreboard_html(html_prefix@, s));
    }
    r
}

} // verus!
