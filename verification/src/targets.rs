//! The list of targets of a run: what was named on the command line and
//! what a target file lists, each target once, in the order given.

use crate::text::{texts, trim, trimmed};
use vstd::prelude::*;

verus! {

/// `list` with every text kept where it first occurs and dropped where it
/// occurs again.
pub open spec fn distinct(list: Seq<Seq<char>>) -> Seq<Seq<char>>
    decreases list.len(),
{
    if list.len() == 0 {
        Seq::empty()
    } else {
        let before = distinct(list.drop_last());
        if before.contains(list.last()) {
            before
        } else {
            before.push(list.last())
        }
    }
}

/// Every line without the white space at its ends.
pub open spec fn trimmed_lines(lines: Seq<Seq<char>>) -> Seq<Seq<char>> {
    Seq::new(lines.len(), |i: int| trimmed(lines[i]))
}

/// `lines` without the empty ones, in the same order.
pub open spec fn without_blank(lines: Seq<Seq<char>>) -> Seq<Seq<char>>
    decreases lines.len(),
{
    if lines.len() == 0 {
        Seq::empty()
    } else {
        let before = without_blank(lines.drop_last());
        if lines.last().len() == 0 {
            before
        } else {
            before.push(lines.last())
        }
    }
}

/// The lines of a target file that name a target: every line without the
/// white space at its ends, and without the lines that are then empty.
pub open spec fn cleaned(lines: Seq<Seq<char>>) -> Seq<Seq<char>> {
    without_blank(trimmed_lines(lines))
}

/// A list without repetitions holds exactly the texts of the list it was
/// made of, and none of them twice.
pub proof fn lemma_distinct(list: Seq<Seq<char>>)
    ensures
        forall|text: Seq<char>| distinct(list).contains(text) <==> list.contains(text),
        forall|i: int, j: int|
            0 <= i < j < distinct(list).len() ==> distinct(list)[i] != distinct(list)[j],
        distinct(list).len() <= list.len(),
        list.len() > 0 ==> distinct(list).len() > 0,
    decreases list.len(),
{
    if list.len() > 0 {
        let head = list.drop_last();
        let last = list.last();
        lemma_distinct(head);
        let before = distinct(head);
        let all = distinct(list);
        assert forall|text: Seq<char>| all.contains(text) <==> list.contains(text) by {
            if all.contains(text) {
                let k = choose|k: int| 0 <= k < all.len() && all[k] == text;
                if k < before.len() {
                    assert(before[k] == text);
                    assert(before.contains(text));
                    assert(head.contains(text));
                    let m = choose|m: int| 0 <= m < head.len() && head[m] == text;
                    assert(list[m] == text);
                } else {
                    assert(text == last);
                    assert(list[list.len() - 1] == text);
                }
            }
            if list.contains(text) {
                let m = choose|m: int| 0 <= m < list.len() && list[m] == text;
                if m < head.len() {
                    assert(head[m] == text);
                    assert(head.contains(text));
                    assert(before.contains(text));
                    let k = choose|k: int| 0 <= k < before.len() && before[k] == text;
                    assert(all[k] == text);
                } else {
                    assert(text == last);
                    if before.contains(last) {
                    } else {
                        assert(all[before.len() as int] == last);
                    }
                }
            }
        }
        assert forall|i: int, j: int| 0 <= i < j < all.len() implies all[i] != all[j] by {
            if j < before.len() {
            } else {
                assert(all[j] == last);
                assert(!before.contains(last));
                assert(before[i] == all[i]);
            }
        }
    }
}

/// Whether `list` holds `item`.
fn holds(list: &Vec<String>, item: &String) -> (found: bool)
    ensures
        found == texts(list@).contains(item@),
{
    let mut i: usize = 0;
    while i < list.len()
        invariant
            i <= list@.len(),
            forall|k: int| 0 <= k < i ==> texts(list@)[k] != item@,
        decreases list@.len() - i,
    {
        if list[i] == *item {
            assert(texts(list@)[i as int] == item@);
            return true;
        }
        i = i + 1;
    }
    false
}

/// The targets of a run: those that were `named`, then those that were
/// `listed`, each kept where it first occurs. There is no list when there is
/// no target at all.
pub fn target_list(named: &Vec<String>, listed: &Vec<String>) -> (targets: Option<Vec<String>>)
    ensures
        targets.is_some() <==> named@.len() + listed@.len() > 0,
        targets matches Some(list) ==> texts(list@) == distinct(texts(named@) + texts(listed@)),
{
    let ghost all = texts(named@) + texts(listed@);
    let mut targets: Vec<String> = Vec::new();
    let mut i: usize = 0;
    while i < named.len()
        invariant
            i <= named@.len(),
            texts(targets@) == distinct(texts(named@).take(i as int)),
        decreases named@.len() - i,
    {
        proof {
            assert(texts(named@).take(i + 1).drop_last() == texts(named@).take(i as int));
        }
        if !holds(&targets, &named[i]) {
            targets.push(named[i].clone());
            proof {
                assert(texts(targets@) =~= distinct(texts(named@).take(i as int)).push(
                    named@[i as int]@,
                ));
            }
        }
        i = i + 1;
    }
    proof {
        assert(texts(named@).take(named@.len() as int) == texts(named@));
        assert(all.take(named@.len() as int) == texts(named@));
    }
    let mut j: usize = 0;
    while j < listed.len()
        invariant
            j <= listed@.len(),
            all == texts(named@) + texts(listed@),
            texts(targets@) == distinct(all.take(named@.len() + j)),
        decreases listed@.len() - j,
    {
        proof {
            assert(all.take(named@.len() + j + 1).drop_last() == all.take(named@.len() + j));
            assert(all[named@.len() + j] == listed@[j as int]@);
        }
        if !holds(&targets, &listed[j]) {
            targets.push(listed[j].clone());
            proof {
                assert(texts(targets@) =~= distinct(all.take(named@.len() + j)).push(
                    listed@[j as int]@,
                ));
            }
        }
        j = j + 1;
    }
    proof {
        assert(all.take((named@.len() + listed@.len()) as int) == all);
        lemma_distinct(all);
    }
    if targets.len() == 0 {
        None
    } else {
        Some(targets)
    }
}

/// `lines` without the empty ones, in the same order.
pub fn drop_blank_lines(lines: &Vec<String>) -> (kept: Vec<String>)
    ensures
        texts(kept@) == without_blank(texts(lines@)),
{
    let mut kept: Vec<String> = Vec::new();
    let mut i: usize = 0;
    while i < lines.len()
        invariant
            i <= lines@.len(),
            texts(kept@) == without_blank(texts(lines@).take(i as int)),
        decreases lines@.len() - i,
    {
        proof {
            assert(texts(lines@).take(i + 1).drop_last() == texts(lines@).take(i as int));
        }
        if !lines[i].as_str().is_empty() {
            kept.push(lines[i].clone());
            proof {
                assert(texts(kept@) =~= without_blank(texts(lines@).take(i as int)).push(
                    lines@[i as int]@,
                ));
            }
        }
        i = i + 1;
    }
    proof {
        assert(texts(lines@).take(lines@.len() as int) == texts(lines@));
    }
    kept
}

/// Every line of `lines` without the white space at its ends.
fn trim_lines(lines: &Vec<String>) -> (stripped: Vec<String>)
    ensures
        texts(stripped@) == trimmed_lines(texts(lines@)),
{
    let mut stripped: Vec<String> = Vec::new();
    let mut i: usize = 0;
    while i < lines.len()
        invariant
            i <= lines@.len(),
            stripped@.len() == i,
            forall|k: int| 0 <= k < i ==> (#[trigger] stripped@[k])@ == trimmed(lines@[k]@),
        decreases lines@.len() - i,
    {
        stripped.push(trim(lines[i].as_str()));
        i = i + 1;
    }
    proof {
        assert(texts(stripped@) =~= trimmed_lines(texts(lines@)));
    }
    stripped
}

/// The targets that the lines of a target file name: every line without the
/// white space at its ends, blank lines left out, in the order of the file.
pub fn read_target_file(lines: &Vec<String>) -> (targets: Vec<String>)
    ensures
        texts(targets@) == cleaned(texts(lines@)),
{
    let stripped = trim_lines(lines);
    drop_blank_lines(&stripped)
}

} // verus!
