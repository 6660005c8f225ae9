//! Directory listings: one line of text for each child of a directory.

use vstd::prelude::*;

verus! {

/// What a metadata query reported of a path.
#[derive(Clone, Copy, Debug, PartialEq, Eq)]
pub enum Stat {
    /// The query failed: nothing is known of the path.
    Failed,
    /// The path names a regular file.
    File,
    /// The path names something else, most often a directory.
    Other,
}

/// The two kinds a listing tells apart.
#[derive(Clone, Copy, Debug, PartialEq, Eq)]
pub enum EntryKind {
    File,
    Dir,
}

/// One child of a directory, as enumeration found it.
#[derive(Debug, PartialEq, Eq)]
pub struct FsEntry {
    /// The base name, where it is valid text.
    pub name: Option<String>,
    /// What a metadata query on the child reported.
    pub stat: Stat,
}

/// An entry as the contracts see it.
pub struct FsEntryView {
    pub name: Option<Seq<char>>,
    pub stat: Stat,
}

impl View for FsEntry {
    type V = FsEntryView;

    open spec fn view(&self) -> FsEntryView {
        FsEntryView {
            name: match self.name {
                Some(n) => Some(n@),
                None => None,
            },
            stat: self.stat,
        }
    }
}

/// The views of a vector's entries, in order.
pub open spec fn entry_views(entries: Seq<FsEntry>) -> Seq<FsEntryView> {
    entries.map_values(|e: FsEntry| e@)
}

/// Whatever is not known to be a regular file is listed as a directory.
pub open spec fn listed_as_dir(stat: Stat) -> bool {
    !(stat is File)
}

/// The kind under which an entry with this metadata is listed.
pub open spec fn kind_of(stat: Stat) -> EntryKind {
    if listed_as_dir(stat) {
        EntryKind::Dir
    } else {
        EntryKind::File
    }
}

/// The tag that opens a line: five characters wide for either kind.
pub open spec fn kind_tag(kind: EntryKind) -> Seq<char> {
    match kind {
        EntryKind::Dir => "DIR  "@,
        EntryKind::File => "FILE "@,
    }
}

/// The line of one entry: tag, name, newline. An entry without a name in
/// valid text has no line.
pub open spec fn entry_line(e: FsEntryView) -> Seq<char> {
    match e.name {
        Some(name) => kind_tag(kind_of(e.stat)) + name + "\n"@,
        None => Seq::empty(),
    }
}

/// The listing of a directory: the lines of its entries, in the order of
/// enumeration.
pub open spec fn listing_text(entries: Seq<FsEntryView>) -> Seq<char>
    decreases entries.len(),
{
    if entries.len() == 0 {
        Seq::empty()
    } else {
        listing_text(entries.drop_last()) + entry_line(entries.last())
    }
}

/// How many characters of a listing stand before the line of entry `i`.
pub open spec fn line_start(entries: Seq<FsEntryView>, i: int) -> int {
    listing_text(entries.take(i)).len() as int
}

/// The line of a named entry opens with one of the two tags, five
/// characters wide, goes on with the name and ends with a newline.
pub proof fn lemma_entry_line_shape(e: FsEntryView)
    requires
        e.name is Some,
    ensures
        entry_line(e).len() == e.name->0.len() + 6,
        entry_line(e).take(5) == "DIR  "@ || entry_line(e).take(5) == "FILE "@,
        entry_line(e).take(5) == "FILE "@ <==> e.stat is File,
        entry_line(e).skip(5).drop_last() == e.name->0,
        entry_line(e).last() == '\n',
{
    reveal_strlit("DIR  ");
    reveal_strlit("FILE ");
    reveal_strlit("\n");
    assert(entry_line(e).skip(5).drop_last() =~= e.name->0);
    assert("DIR  "@[0] != "FILE "@[0]);
}

/// The listing of the first `i` entries opens the listing of them all.
proof fn lemma_listing_prefix(entries: Seq<FsEntryView>, i: int)
    requires
        0 <= i <= entries.len(),
    ensures
        line_start(entries, i) <= listing_text(entries).len(),
        listing_text(entries).take(line_start(entries, i)) == listing_text(entries.take(i)),
    decreases entries.len(),
{
    if i == entries.len() {
        assert(entries.take(i) =~= entries);
        assert(listing_text(entries).take(listing_text(entries).len() as int) =~= listing_text(
            entries,
        ));
    } else {
        let front = entries.drop_last();
        lemma_listing_prefix(front, i);
        assert(front.take(i) =~= entries.take(i));
        assert(listing_text(entries).take(line_start(entries, i)) =~= listing_text(front).take(
            line_start(entries, i),
        ));
    }
}

/// A listing is made of the lines of its entries, one after the other in
/// the order of enumeration, and of nothing else.
pub proof fn lemma_listing_lines(entries: Seq<FsEntryView>, i: int)
    requires
        0 <= i < entries.len(),
    ensures
        line_start(entries, 0) == 0,
        line_start(entries, i) <= line_start(entries, i + 1) <= listing_text(entries).len(),
        line_start(entries, entries.len() as int) == listing_text(entries).len(),
        listing_text(entries).subrange(line_start(entries, i), line_start(entries, i + 1))
            == entry_line(entries[i]),
{
    let upto = entries.take(i + 1);
    assert(upto.drop_last() =~= entries.take(i));
    assert(entries.take(entries.len() as int) =~= entries);
    lemma_listing_prefix(entries, i + 1);
    let a = line_start(entries, i);
    let b = line_start(entries, i + 1);
    assert(listing_text(upto).subrange(a, b) =~= entry_line(entries[i]));
}

/// How many newlines a text holds.
pub open spec fn count_newlines(text: Seq<char>) -> nat
    decreases text.len(),
{
    if text.len() == 0 {
        0
    } else if text.last() == '\n' {
        count_newlines(text.drop_last()) + 1
    } else {
        count_newlines(text.drop_last())
    }
}

/// How many entries have a name in valid text.
pub open spec fn count_named(entries: Seq<FsEntryView>) -> nat
    decreases entries.len(),
{
    if entries.len() == 0 {
        0
    } else if entries.last().name is Some {
        count_named(entries.drop_last()) + 1
    } else {
        count_named(entries.drop_last())
    }
}

/// Whether a text holds no newline.
pub open spec fn on_one_line(text: Seq<char>) -> bool {
    forall|j: int| 0 <= j < text.len() ==> text[j] != '\n'
}

/// Whether no name among the entries holds a newline.
pub open spec fn names_on_one_line(entries: Seq<FsEntryView>) -> bool {
    forall|i: int|
        0 <= i < entries.len() && (#[trigger] entries[i]).name is Some ==> on_one_line(
            entries[i].name->0,
        )
}

/// The newlines of two texts put together are those of the one and those of
/// the other.
proof fn lemma_count_newlines_concat(a: Seq<char>, b: Seq<char>)
    ensures
        count_newlines(a + b) == count_newlines(a) + count_newlines(b),
    decreases b.len(),
{
    if b.len() == 0 {
        assert(a + b =~= a);
    } else {
        assert((a + b).drop_last() =~= a + b.drop_last());
        lemma_count_newlines_concat(a, b.drop_last());
    }
}

/// A text on one line counts no newline.
proof fn lemma_count_newlines_none(text: Seq<char>)
    requires
        on_one_line(text),
    ensures
        count_newlines(text) == 0,
    decreases text.len(),
{
    if text.len() > 0 {
        lemma_count_newlines_none(text.drop_last());
    }
}

/// One line for each child: where no name holds a newline, a listing has as
/// many newlines as there are entries with a name.
pub proof fn lemma_listing_line_count(entries: Seq<FsEntryView>)
    requires
        names_on_one_line(entries),
    ensures
        count_newlines(listing_text(entries)) == count_named(entries),
    decreases entries.len(),
{
    if entries.len() > 0 {
        let front = entries.drop_last();
        let e = entries.last();
        assert(names_on_one_line(front)) by {
            assert forall|i: int|
                0 <= i < front.len() && (#[trigger] front[i]).name is Some implies on_one_line(
                front[i].name->0,
            ) by {
                assert(front[i] == entries[i]);
            }
        }
        lemma_listing_line_count(front);
        lemma_count_newlines_concat(listing_text(front), entry_line(e));
        if e.name is Some {
            let tag = kind_tag(kind_of(e.stat));
            let name = e.name->0;
            reveal_strlit("DIR  ");
            reveal_strlit("FILE ");
            reveal_strlit("\n");
            assert(e == entries[entries.len() - 1]);
            lemma_count_newlines_none(tag);
            lemma_count_newlines_none(name);
            lemma_count_newlines_concat(tag, name);
            lemma_count_newlines_concat(tag + name, "\n"@);
            assert(count_newlines("\n"@) == 1) by {
                reveal_with_fuel(count_newlines, 2);
            }
        }
    }
}

/// Decides from a metadata query whether a path is listed as a directory.
/// A failed query counts as "not a file".
pub fn is_dir(stat: Stat) -> (b: bool)
    ensures
        b == listed_as_dir(stat),
{
    match stat {
        Stat::File => false,
        _ => true,
    }
}

impl FsEntry {
    /// The kind under which this entry is listed.
    pub fn kind(&self) -> (k: EntryKind)
        ensures
            k == kind_of(self.stat),
    {
        if is_dir(self.stat) {
            EntryKind::Dir
        } else {
            EntryKind::File
        }
    }
}

/// Renders the listing of a directory from its enumerated children.
pub fn files_listing(entries: &Vec<FsEntry>) -> (text: String)
    ensures
        text@ == listing_text(entry_views(entries@)),
{
    let ghost views = entry_views(entries@);
    let mut files = String::new();
    let mut i: usize = 0;
    while i < entries.len()
        invariant
            i <= entries.len(),
            views == entry_views(entries@),
            files@ == listing_text(views.take(i as int)),
        decreases entries.len() - i,
    {
        let entry = &entries[i];
        proof {
            assert(views.take(i + 1).drop_last() == views.take(i as int));
        }
        match &entry.name {
            Some(name) => {
                let tag = match entry.kind() {
                    EntryKind::Dir => "DIR  ",
                    EntryKind::File => "FILE ",
                };
                files.append(tag);
                files.append(name.as_str());
                files.append("\n");
            },
            None => {},
        }
        i += 1;
    }
    proof {
        assert(views.take(i as int) == views);
    }
    files
}

} // verus!
