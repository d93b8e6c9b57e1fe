//! The report shown after a job that did not simply succeed: a line for
//! each file or directory that was not done cleanly, the errors first.

use vstd::prelude::*;
use crate::database::{DBDirListEntry, DBFileEntry, DBFileStatus, DBJobStatus};
use crate::paths::{path_diff, relative_to};
use crate::strings::push_str;

verus! {

broadcast use vstd::string::group_string_axioms;

/// What the report says of one file: its status, message and path.
pub type ReportItem = (DBFileStatus, Seq<char>, Seq<char>);

/// The line for `word`, `message` and the relative path `rel`.
pub open spec fn line_text(word: Seq<char>, message: Seq<char>, rel: Seq<char>) -> Seq<char> {
    word + " ["@ + message + "] "@ + rel
}

/// Whether an item gets a line: anything not done, and what was done with
/// a message; what was done without one only when the job was aborted.
pub open spec fn has_line(item: ReportItem, aborted: bool) -> bool {
    item.0 != DBFileStatus::Done || item.1.len() > 0 || aborted
}

/// The word a line starts with.
pub open spec fn line_word(item: ReportItem) -> Seq<char> {
    match item.0 {
        DBFileStatus::ToDo | DBFileStatus::InProgress => "ABORTED"@,
        DBFileStatus::Error => "ERROR"@,
        DBFileStatus::Skipped => "SKIPPED"@,
        DBFileStatus::Done => if item.1.len() > 0 {
            "WARNING"@
        } else {
            "DONE"@
        },
    }
}

/// The line of one item, when it has one and it is an error (`errors`)
/// or not (`!errors`); `None` when it has a line but no path relative to
/// `cwd`.
pub open spec fn item_lines(item: ReportItem, cwd: Seq<char>, aborted: bool, errors: bool) -> Option<
    Seq<Seq<char>>,
> {
    if !has_line(item, aborted) || ((item.0 == DBFileStatus::Error) != errors) {
        Some(Seq::empty())
    } else {
        match path_diff(item.2, cwd) {
            None => None,
            Some(rel) => Some(seq![line_text(line_word(item), item.1, rel)]),
        }
    }
}

/// The lines of `items` that are errors (`errors`) or the other lines, in
/// order; `None` when an item with a line has no path relative to `cwd`.
pub open spec fn lines_of(items: Seq<ReportItem>, cwd: Seq<char>, aborted: bool, errors: bool) -> Option<
    Seq<Seq<char>>,
>
    decreases items.len(),
{
    if items.len() == 0 {
        Some(Seq::empty())
    } else {
        match (lines_of(items.drop_last(), cwd, aborted, errors), item_lines(items.last(), cwd, aborted, errors)) {
            (Some(before), Some(l)) => Some(before + l),
            _ => None,
        }
    }
}

/// The items of a job: its files, then its directories.
pub open spec fn report_items(files: Seq<DBFileEntry>, dirs: Seq<DBDirListEntry>) -> Seq<ReportItem> {
    files.map_values(|e: DBFileEntry| (e.status, e.message@, e.file@)) + dirs.map_values(
        |d: DBDirListEntry| (d.status, d.message@, d.file.file@),
    )
}

/// The report: the error lines, then the others.
pub open spec fn report_spec(items: Seq<ReportItem>, cwd: Seq<char>, aborted: bool) -> Option<Seq<Seq<char>>> {
    match (lines_of(items, cwd, aborted, true), lines_of(items, cwd, aborted, false)) {
        (Some(e), Some(o)) => Some(e + o),
        _ => None,
    }
}

/// The lines of a report and how many of them, at the top, are errors.
#[derive(Debug)]
pub struct Report {
    pub lines: Vec<String>,
    pub errors: usize,
}

fn word_of(status: DBFileStatus, has_message: bool) -> (r: &'static str)
    ensures
        r@ == line_word((status, if has_message { seq!['x'] } else { Seq::empty() }, Seq::empty())),
{
    proof {
        reveal_strlit("ABORTED");
        reveal_strlit("ERROR");
        reveal_strlit("SKIPPED");
        reveal_strlit("WARNING");
        reveal_strlit("DONE");
    }
    match status {
        DBFileStatus::ToDo | DBFileStatus::InProgress => "ABORTED",
        DBFileStatus::Error => "ERROR",
        DBFileStatus::Skipped => "SKIPPED",
        DBFileStatus::Done => if has_message {
            "WARNING"
        } else {
            "DONE"
        },
    }
}

fn make_line(word: &str, message: &str, rel: &str) -> (r: String)
    ensures
        r@ == line_text(word@, message@, rel@),
{
    let mut r = word.to_string();
    push_str(&mut r, " [");
    push_str(&mut r, message);
    push_str(&mut r, "] ");
    push_str(&mut r, rel);
    proof {
        reveal_strlit(" [");
        reveal_strlit("] ");
    }
    r
}

/// Adds the line of one item to the error lines or the other lines.
fn add_item(
    status: DBFileStatus,
    message: &str,
    file: &str,
    cwd: &str,
    aborted: bool,
    errs: &mut Vec<String>,
    others: &mut Vec<String>,
) -> (ok: bool)
    ensures
        ({
            let item = (status, message@, file@);
            let e0 = seq_view(old(errs)@);
            let o0 = seq_view(old(others)@);
            &&& ok == (item_lines(item, cwd@, aborted, true) is Some && item_lines(item, cwd@, aborted, false) is Some)
            &&& ok ==> seq_view(final(errs)@) == e0 + item_lines(item, cwd@, aborted, true).unwrap()
            &&& ok ==> seq_view(final(others)@) == o0 + item_lines(item, cwd@, aborted, false).unwrap()
        }),
{
    let ghost item = (status, message@, file@);
    let has_message = !message.is_empty();
    let shown = !(status == DBFileStatus::Done && !has_message && !aborted);
    if !shown {
        assert(seq_view(errs@) =~= seq_view(old(errs)@) + Seq::<Seq<char>>::empty());
        assert(seq_view(others@) =~= seq_view(old(others)@) + Seq::<Seq<char>>::empty());
        return true;
    }
    let rel = match relative_to(file, cwd) {
        Some(rel) => rel,
        None => return false,
    };
    let word = word_of(status, has_message);
    proof {
        assert(word@ == line_word(item));
    }
    let line = make_line(word, message, rel.as_str());
    if status == DBFileStatus::Error {
        errs.push(line);
        assert(seq_view(errs@) =~= seq_view(old(errs)@) + seq![line@]);
        assert(seq_view(others@) =~= seq_view(old(others)@) + Seq::<Seq<char>>::empty());
    } else {
        others.push(line);
        assert(seq_view(others@) =~= seq_view(old(others)@) + seq![line@]);
        assert(seq_view(errs@) =~= seq_view(old(errs)@) + Seq::<Seq<char>>::empty());
    }
    true
}

/// The views of strings.
pub open spec fn seq_view(s: Seq<String>) -> Seq<Seq<char>> {
    s.map_values(|x: String| x@)
}

/// The report of a job in `cwd` over its files and directories; `None`
/// when a file with a line has no path relative to `cwd`.
pub fn report_lines(status: DBJobStatus, cwd: &str, files: &[DBFileEntry], dirs: &[DBDirListEntry]) -> (r:
    Option<Report>)
    ensures
        match report_spec(report_items(files@, dirs@), cwd@, status == DBJobStatus::Aborted) {
            Some(lines) => r matches Some(rep) && seq_view(rep.lines@) == lines && rep.errors as int == lines_of(
                report_items(files@, dirs@),
                cwd@,
                status == DBJobStatus::Aborted,
                true,
            ).unwrap().len(),
            None => r is None,
        },
{
    let aborted = status == DBJobStatus::Aborted;
    let ghost items = report_items(files@, dirs@);
    let ghost fitems = files@.map_values(|e: DBFileEntry| (e.status, e.message@, e.file@));
    let ghost ditems = dirs@.map_values(|d: DBDirListEntry| (d.status, d.message@, d.file.file@));
    let mut errs: Vec<String> = Vec::new();
    let mut others: Vec<String> = Vec::new();
    let mut i: usize = 0;
    proof {
        assert(fitems.take(0) =~= Seq::<ReportItem>::empty());
    }
    while i < files.len()
        invariant
            i <= files@.len(),
            aborted == (status == DBJobStatus::Aborted),
            fitems == files@.map_values(|e: DBFileEntry| (e.status, e.message@, e.file@)),
            ditems == dirs@.map_values(|d: DBDirListEntry| (d.status, d.message@, d.file.file@)),
            lines_of(fitems.take(i as int), cwd@, aborted, true) == Some(seq_view(errs@)),
            lines_of(fitems.take(i as int), cwd@, aborted, false) == Some(seq_view(others@)),
        decreases files.len() - i,
    {
        let ghost item = fitems[i as int];
        let ok = add_item(
            files[i].status,
            files[i].message.as_str(),
            files[i].file.as_str(),
            cwd,
            aborted,
            &mut errs,
            &mut others,
        );
        proof {
            assert(fitems.take(i + 1) =~= fitems.take(i as int).push(item));
            assert(fitems.take(i + 1).drop_last() =~= fitems.take(i as int));
            assert(fitems.take(i + 1).last() == item);
        }
        if !ok {
            proof {
                lemma_lines_prefix_none(fitems, (i + 1) as int, cwd@, aborted);
                lemma_lines_extend_none(fitems, ditems, cwd@, aborted);
                assert(report_items(files@, dirs@) =~= fitems + ditems);
            }
            return None;
        }
        i += 1;
    }
    proof {
        assert(fitems.take(files@.len() as int) =~= fitems);
        assert(fitems + ditems.take(0) =~= fitems);
    }
    let mut k: usize = 0;
    while k < dirs.len()
        invariant
            k <= dirs@.len(),
            aborted == (status == DBJobStatus::Aborted),
            ditems == dirs@.map_values(|d: DBDirListEntry| (d.status, d.message@, d.file.file@)),
            fitems == files@.map_values(|e: DBFileEntry| (e.status, e.message@, e.file@)),
            lines_of(fitems + ditems.take(k as int), cwd@, aborted, true) == Some(seq_view(errs@)),
            lines_of(fitems + ditems.take(k as int), cwd@, aborted, false) == Some(seq_view(others@)),
        decreases dirs.len() - k,
    {
        let ghost item = ditems[k as int];
        let ok = add_item(
            dirs[k].status,
            dirs[k].message.as_str(),
            dirs[k].file.file.as_str(),
            cwd,
            aborted,
            &mut errs,
            &mut others,
        );
        proof {
            assert(fitems + ditems.take(k + 1) =~= (fitems + ditems.take(k as int)).push(item));
            assert((fitems + ditems.take(k + 1)).drop_last() =~= fitems + ditems.take(k as int));
            assert((fitems + ditems.take(k + 1)).last() == item);
        }
        if !ok {
            proof {
                let all = fitems + ditems;
                assert(all.take(fitems.len() + k + 1) =~= fitems + ditems.take(k + 1));
                lemma_lines_prefix_none(all, fitems.len() + k + 1, cwd@, aborted);
                assert(report_items(files@, dirs@) =~= all);
            }
            return None;
        }
        k += 1;
    }
    proof {
        assert(ditems.take(dirs@.len() as int) =~= ditems);
        assert(items =~= fitems + ditems);
    }
    let errors = errs.len();
    let ghost e = seq_view(errs@);
    let ghost o = seq_view(others@);
    errs.append(&mut others);
    proof {
        assert(seq_view(errs@) =~= e + o);
    }
    Some(Report { lines: errs, errors })
}

/// A failing prefix makes the whole sequence fail.
proof fn lemma_lines_prefix_none(items: Seq<ReportItem>, n: int, cwd: Seq<char>, aborted: bool)
    requires
        0 <= n <= items.len(),
        lines_of(items.take(n), cwd, aborted, true) is None || lines_of(items.take(n), cwd, aborted, false) is None,
    ensures
        lines_of(items, cwd, aborted, true) is None || lines_of(items, cwd, aborted, false) is None,
    decreases items.len() - n,
{
    if n < items.len() {
        let t = items.take(n + 1);
        assert(t.drop_last() =~= items.take(n));
        lemma_lines_prefix_none(items, n + 1, cwd, aborted);
    } else {
        assert(items.take(n) =~= items);
    }
}

proof fn lemma_lines_extend_none(a: Seq<ReportItem>, b: Seq<ReportItem>, cwd: Seq<char>, aborted: bool)
    requires
        lines_of(a, cwd, aborted, true) is None || lines_of(a, cwd, aborted, false) is None,
    ensures
        lines_of(a + b, cwd, aborted, true) is None || lines_of(a + b, cwd, aborted, false) is None,
{
    assert((a + b).take(a.len() as int) =~= a);
    lemma_lines_prefix_none(a + b, a.len() as int, cwd, aborted);
}

} // verus!
