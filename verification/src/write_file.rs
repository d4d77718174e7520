//! The file writes that the overlay performs, as plain values.
use vstd::prelude::*;
use crate::config::TEXT_SOURCES_DIR;
use crate::text::push_char;

verus! {

/// One text file to write: its name inside the text-sources directory and its content.
#[derive(Debug, Clone, PartialEq, Eq)]
pub struct FileWrite {
    pub name: String,
    pub content: String,
}

impl View for FileWrite {
    type V = (Seq<char>, Seq<char>);

    open spec fn view(&self) -> (Seq<char>, Seq<char>) {
        (self.name@, self.content@)
    }
}

/// The path, relative to the working directory, of the text file `filename`.
pub fn text_source_path(filename: &str) -> (path: String)
    ensures
        path@ == TEXT_SOURCES_DIR@ + seq!['/'] + filename@,
{
    let mut path = String::new();
    path.append(TEXT_SOURCES_DIR);
    push_char(&mut path, '/');
    path.append(filename);
    assert(path@ =~= TEXT_SOURCES_DIR@ + seq!['/'] + filename@);
    path
}

/// The text files after the writes `w`, made one after the other, starting
/// from `files` (a map from file name to content): each write replaces the
/// whole content of its file.
pub open spec fn after_writes(
    files: Map<Seq<char>, Seq<char>>,
    w: Seq<(Seq<char>, Seq<char>)>,
) -> Map<Seq<char>, Seq<char>>
    decreases w.len(),
{
    if w.len() == 0 {
        files
    } else {
        after_writes(files, w.drop_last()).insert(w.last().0, w.last().1)
    }
}

proof fn lemma_after_writes_overrides(files: Map<Seq<char>, Seq<char>>, w: Seq<(Seq<char>, Seq<char>)>)
    ensures
        after_writes(files, w) == files.union_prefer_right(after_writes(Map::empty(), w)),
    decreases w.len(),
{
    if w.len() == 0 {
        assert(files.union_prefer_right(Map::empty()) =~= files);
    } else {
        lemma_after_writes_overrides(files, w.drop_last());
        lemma_after_writes_overrides(Map::empty(), w.drop_last());
        assert(Map::<Seq<char>, Seq<char>>::empty().union_prefer_right(
            after_writes(Map::empty(), w.drop_last()),
        ) =~= after_writes(Map::empty(), w.drop_last()));
        assert(after_writes(files, w) =~= files.union_prefer_right(after_writes(Map::empty(), w)));
    }
}

/// Making the same writes again leaves every file as the first time made it.
pub proof fn lemma_rewriting_is_idempotent(
    files: Map<Seq<char>, Seq<char>>,
    w: Seq<(Seq<char>, Seq<char>)>,
)
    ensures
        after_writes(after_writes(files, w), w) == after_writes(files, w),
{
    lemma_after_writes_overrides(files, w);
    lemma_after_writes_overrides(after_writes(files, w), w);
    let written = after_writes(Map::<Seq<char>, Seq<char>>::empty(), w);
    assert(files.union_prefer_right(written).union_prefer_right(written) =~= files.union_prefer_right(
        written,
    ));
}

} // verus!
