//! Loading the lines of one input file into the buffer of a back end.

use crate::json::JsonTree;
use crate::loader::document::{parse_line, Document, MalformedRecord};
use crate::output::search_engine::{Phase, SearchEngine};
use vstd::prelude::*;

verus! {

/// Reads one line of input as a document.
pub fn parse_document(line: &str) -> (r: Result<Document, MalformedRecord>)
    ensures
        match parse_line(line@) {
            Ok(doc) => r matches Ok(d) && d@ == doc,
            Err(e) => r == Err::<Document, MalformedRecord>(e),
        },
        r matches Ok(d) ==> d@.wf(),
{
    Document::new(line)
}

/// The records that the first `count` of `lines` add to the buffer of
/// `engine`, where each of them reads as a document.
pub open spec fn loaded<E: SearchEngine>(engine: E, lines: Seq<Seq<char>>, count: int) -> Seq<
    Seq<(Seq<char>, JsonTree)>,
> {
    Seq::new(count as nat, |j: int| engine.prepared(parse_line(lines[j])->Ok_0))
}

/// The views of a run of lines, in order.
pub open spec fn line_views(lines: Seq<String>) -> Seq<Seq<char>> {
    Seq::new(lines.len(), |i: int| lines[i]@)
}

/// Loads one line: the document that it reads as is appended to the buffer;
/// a line that is no document changes nothing and is reported.
pub fn load_line<E: SearchEngine>(engine: &mut E, line: &str) -> (r: Result<(), MalformedRecord>)
    requires
        old(engine).wf(),
        old(engine).phase() != Phase::Closed,
    ensures
        final(engine).wf(),
        final(engine).capacity() == old(engine).capacity(),
        final(engine).phase() == old(engine).phase(),
        forall|d| #[trigger] final(engine).prepared(d) == old(engine).prepared(d),
        match parse_line(line@) {
            Ok(doc) => r is Ok && final(engine).buffered() == old(engine).buffered().push(
                old(engine).prepared(doc),
            ),
            Err(e) => r == Err::<(), MalformedRecord>(e) && final(engine).buffered() == old(
                engine,
            ).buffered(),
        },
{
    match parse_document(line) {
        Ok(document) => {
            engine.add_document(document);
            Ok(())
        },
        Err(e) => Err(e),
    }
}

/// Loads the lines of a file in their order, up to the first line that is
/// no document. `Ok` means that every line was loaded; `Err` holds the
/// position of the first line that is no document and the reason, and then
/// exactly the lines before it were loaded.
pub fn load_lines<E: SearchEngine>(engine: &mut E, lines: &Vec<String>) -> (r: Result<
    (),
    (usize, MalformedRecord),
>)
    requires
        old(engine).wf(),
        old(engine).phase() != Phase::Closed,
    ensures
        final(engine).wf(),
        final(engine).capacity() == old(engine).capacity(),
        final(engine).phase() == old(engine).phase(),
        forall|d| #[trigger] final(engine).prepared(d) == old(engine).prepared(d),
        match r {
            Ok(()) => {
                &&& forall|j: int|
                    0 <= j < lines.len() ==> parse_line(#[trigger] lines[j]@) is Ok
                &&& final(engine).buffered() == old(engine).buffered() + loaded(
                    *old(engine),
                    line_views(lines@),
                    lines.len() as int,
                )
            },
            Err((k, e)) => {
                &&& k < lines.len()
                &&& forall|j: int| 0 <= j < k ==> parse_line(#[trigger] lines[j]@) is Ok
                &&& parse_line(lines[k as int]@) == Err::<
                    crate::loader::document::DocumentView,
                    MalformedRecord,
                >(e)
                &&& final(engine).buffered() == old(engine).buffered() + loaded(
                    *old(engine),
                    line_views(lines@),
                    k as int,
                )
            },
        },
{
    let ghost all = line_views(lines@);
    let mut i: usize = 0;
    assert(engine.buffered() =~= old(engine).buffered() + loaded(*old(engine), all, 0));
    while i < lines.len()
        invariant
            0 <= i <= lines.len(),
            all == line_views(lines@),
            engine.wf(),
            engine.phase() != Phase::Closed,
            engine.capacity() == old(engine).capacity(),
            engine.phase() == old(engine).phase(),
            forall|d| #[trigger] engine.prepared(d) == old(engine).prepared(d),
            forall|j: int| 0 <= j < i ==> parse_line(#[trigger] lines[j]@) is Ok,
            engine.buffered() == old(engine).buffered() + loaded(*old(engine), all, i as int),
        decreases lines.len() - i,
    {
        let ghost before = engine.buffered();
        match load_line(engine, lines[i].as_str()) {
            Ok(()) => {
                proof {
                    let doc = parse_line(lines[i as int]@)->Ok_0;
                    assert(all[i as int] == lines[i as int]@);
                    assert(loaded(*old(engine), all, i + 1) =~= loaded(
                        *old(engine),
                        all,
                        i as int,
                    ).push(old(engine).prepared(doc)));
                    assert(engine.buffered() =~= old(engine).buffered() + loaded(
                        *old(engine),
                        all,
                        i + 1,
                    ));
                }
            },
            Err(e) => {
                return Err((i, e));
            },
        }
        i += 1;
    }
    Ok(())
}

} // verus!
