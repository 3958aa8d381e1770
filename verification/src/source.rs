//! The configuration source as text: from the text of a configuration file to
//! its sections, and on to the network.
//!
//! The text is cut into blocks at its section headers, so that every block
//! holds one section, and each block is read on its own. Sections of one
//! name are thereby kept apart, in the order in which they were written.

use crate::config::{entry_views, load, loaded, Section, SectionView};
use crate::error::{Error, ErrorView};
use crate::model::{lemma_views_push, views, Instance, InstanceView};
use crate::text::chars_of;
use vstd::prelude::*;

verus! {

/// Whether `c` is white space within a line: any white space but the line
/// feed.
pub open spec fn is_blank(c: char) -> bool {
    ||| c == '\u{9}'
    ||| '\u{b}' <= c <= '\u{d}'
    ||| c == ' '
    ||| c == '\u{85}'
    ||| c == '\u{a0}'
    ||| c == '\u{1680}'
    ||| '\u{2000}' <= c <= '\u{200a}'
    ||| c == '\u{2028}'
    ||| c == '\u{2029}'
    ||| c == '\u{202f}'
    ||| c == '\u{205f}'
    ||| c == '\u{3000}'
}

/// Whether the first character from index `i` on that is not blank is `[`.
pub open spec fn opens_header(text: Seq<char>, i: int) -> bool
    decreases text.len() - i,
{
    if i < 0 || i >= text.len() {
        false
    } else if text[i] == '[' {
        true
    } else if is_blank(text[i]) {
        opens_header(text, i + 1)
    } else {
        false
    }
}

/// Whether a section header begins at index `i`: a line begins there, and
/// the first character of the line that is not blank is `[`.
pub open spec fn header_at(text: Seq<char>, i: int) -> bool {
    &&& 0 <= i < text.len()
    &&& i == 0 || text[i - 1] == '\n'
    &&& opens_header(text, i)
}

/// The number of characters from index `from` up to the next section
/// header, or up to the end of the text where no header follows.
pub open spec fn header_distance(text: Seq<char>, from: int) -> nat
    decreases text.len() - from,
{
    if from < 0 || from >= text.len() || header_at(text, from) {
        0
    } else {
        1 + header_distance(text, from + 1)
    }
}

/// The blocks of `text` from the header at index `start` on: each runs
/// from one header up to the next.
pub open spec fn blocks_from(text: Seq<char>, start: int) -> Seq<Seq<char>>
    decreases text.len() - start,
{
    if start < 0 || start >= text.len() {
        Seq::empty()
    } else {
        let end = start + 1 + header_distance(text, start + 1);
        if end >= text.len() {
            seq![text.subrange(start, end)]
        } else {
            seq![text.subrange(start, end)] + blocks_from(text, end)
        }
    }
}

/// The blocks of `text`: what stands before the first section header, then
/// one block for each header, from that header up to the next.
pub open spec fn blocks_of(text: Seq<char>) -> Seq<Seq<char>> {
    let first = header_distance(text, 0) as int;
    seq![text.subrange(0, first)] + blocks_from(text, first)
}

/// The next header is not beyond the end of the text.
pub proof fn lemma_header_distance(text: Seq<char>, from: int)
    requires
        0 <= from <= text.len(),
    ensures
        from + header_distance(text, from) <= text.len(),
        forall|i: int| from <= i < from + header_distance(text, from) ==> !header_at(text, i),
        from + header_distance(text, from) < text.len() ==> header_at(
            text,
            from + header_distance(text, from),
        ),
    decreases text.len() - from,
{
    if from < text.len() && !header_at(text, from) {
        lemma_header_distance(text, from + 1);
    }
}

/// Whether `c` is white space within a line.
fn blank(c: char) -> (blank: bool)
    ensures
        blank == is_blank(c),
{
    c == '\u{9}' || ('\u{b}' <= c && c <= '\u{d}') || c == ' ' || c == '\u{85}' || c == '\u{a0}'
        || c == '\u{1680}' || ('\u{2000}' <= c && c <= '\u{200a}') || c == '\u{2028}' || c
        == '\u{2029}' || c == '\u{202f}' || c == '\u{205f}' || c == '\u{3000}'
}

/// Whether a section header begins at index `i` of `chars`.
fn is_header(chars: &Vec<char>, i: usize) -> (header: bool)
    requires
        i < chars.len(),
    ensures
        header == header_at(chars@, i as int),
{
    if i > 0 && chars[i - 1] != '\n' {
        return false;
    }
    let mut j: usize = i;
    while j < chars.len() && blank(chars[j])
        invariant
            i <= j <= chars.len(),
            opens_header(chars@, i as int) == opens_header(chars@, j as int),
        decreases chars.len() - j,
    {
        j += 1;
    }
    j < chars.len() && chars[j] == '['
}

/// Finds the next section header from index `from` on, or the end of
/// `chars`.
fn find_header(chars: &Vec<char>, from: usize) -> (at: usize)
    requires
        from <= chars.len(),
    ensures
        at == from + header_distance(chars@, from as int),
        from <= at <= chars.len(),
{
    let mut i: usize = from;
    while i < chars.len() && !is_header(chars, i)
        invariant
            from <= i <= chars.len(),
            from + header_distance(chars@, from as int) == i + header_distance(chars@, i as int),
        decreases chars.len() - i,
    {
        i += 1;
    }
    i
}

/// Cuts `text` into its blocks.
pub fn split_blocks(text: &str) -> (blocks: Vec<String>)
    ensures
        views(blocks@) == blocks_of(text@),
{
    let chars = chars_of(text);
    let n = chars.len();
    let mut blocks: Vec<String> = Vec::new();
    let first = find_header(&chars, 0);
    let head = text.substring_char(0, first).to_owned();
    proof {
        lemma_views_push(blocks@, head);
        assert(views(blocks@) =~= Seq::empty());
    }
    blocks.push(head);
    let mut start: usize = first;
    while start < n
        invariant
            chars@ == text@,
            n == chars.len(),
            start <= n,
            blocks_of(text@) == views(blocks@) + blocks_from(text@, start as int),
        decreases n - start,
    {
        let end = find_header(&chars, start + 1);
        let block = text.substring_char(start, end).to_owned();
        proof {
            lemma_views_push(blocks@, block);
            assert(views(blocks@).push(block@) + blocks_from(text@, end as int) =~= views(blocks@)
                + (seq![block@] + blocks_from(text@, end as int)));
            assert(end >= n ==> blocks_from(text@, end as int) =~= Seq::empty());
            assert(seq![block@] + Seq::<Seq<char>>::empty() =~= seq![block@]);
        }
        blocks.push(block);
        start = end;
    }
    assert(views(blocks@) + Seq::<Seq<char>>::empty() =~= views(blocks@));
    blocks
}

/// Sections as the reader hands them out: the name of each with its keys,
/// and with each key its value, if the key has one.
pub type RawSections = Seq<(Seq<char>, Seq<(Seq<char>, Option<Seq<char>>)>)>;

/// What `ini::read` makes of a text, read with names and keys as they are
/// written: the sections in the order in which their names first occur, or
/// the message of the reader where the text is malformed.
pub uninterp spec fn ini_sections(text: Seq<char>) -> Result<
    Seq<(Seq<char>, Seq<(Seq<char>, Option<Seq<char>>)>)>,
    Seq<char>,
>;

/// The keys of a section as texts.
pub open spec fn raw_entries(entries: Seq<(String, Option<String>)>) -> Seq<
    (Seq<char>, Option<Seq<char>>),
> {
    Seq::new(
        entries.len(),
        |i: int|
            (
                entries[i].0@,
                match entries[i].1 {
                    Some(value) => Some(value@),
                    None => None,
                },
            ),
    )
}

/// What the reader handed out, as texts.
pub open spec fn raw_view(
    read: Result<Vec<(String, Vec<(String, Option<String>)>)>, String>,
) -> Result<RawSections, Seq<char>> {
    match read {
        Ok(sections) => Ok(
            Seq::new(sections@.len(), |i: int| (sections@[i].0@, raw_entries(sections@[i].1@))),
        ),
        Err(message) => Err(message@),
    }
}

/// Calls `ini::read` on `text`, case kept. The contract claims that the
/// sections and keys come out as that function yields them for this text, in
/// its order, and its message where it fails; it claims nothing of what they
/// are.
#[verifier::external_body]
fn read_ini(text: &str) -> (read: Result<Vec<(String, Vec<(String, Option<String>)>)>, String>)
    ensures
        raw_view(read) == ini_sections(text@),
{
    let map = ini::read(text, true)?;
    let mut sections = Vec::with_capacity(map.len());
    for (name, keys) in map {
        sections.push((name, keys.into_iter().collect()));
    }
    Ok(sections)
}

/// The entries of a section that was read: a key without a value has the
/// empty text for its value.
pub open spec fn entries_of(keys: Seq<(Seq<char>, Option<Seq<char>>)>) -> Seq<
    (Seq<char>, Seq<char>),
> {
    Seq::new(
        keys.len(),
        |i: int|
            (
                keys[i].0,
                match keys[i].1 {
                    Some(value) => value,
                    None => Seq::empty(),
                },
            ),
    )
}

/// The sections of one block as the loader takes them. What is read from
/// the block before the first header is the section without a name.
pub open spec fn sections_of(raw: RawSections, headless: bool) -> Seq<SectionView> {
    Seq::new(
        raw.len(),
        |i: int|
            SectionView {
                name: if headless {
                    ""@
                } else {
                    raw[i].0
                },
                entries: entries_of(raw[i].1),
            },
    )
}

/// The sections of the first `n` blocks, in order, or the first fault of
/// the reader as a configuration fault.
pub open spec fn collected(blocks: Seq<Seq<char>>, n: nat) -> Result<Seq<SectionView>, ErrorView>
    decreases n,
{
    if n == 0 {
        Ok(Seq::empty())
    } else {
        match collected(blocks, (n - 1) as nat) {
            Err(fault) => Err(fault),
            Ok(before) => match ini_sections(blocks[n - 1]) {
                Err(message) => Err(ErrorView::Config(message)),
                Ok(raw) => Ok(before + sections_of(raw, n == 1)),
            },
        }
    }
}

/// The sections of a configuration text.
pub open spec fn document(text: Seq<char>) -> Result<Seq<SectionView>, ErrorView> {
    collected(blocks_of(text), blocks_of(text).len())
}

/// The network that a configuration text describes.
pub open spec fn described(text: Seq<char>) -> Result<InstanceView, ErrorView> {
    match document(text) {
        Ok(sections) => loaded(sections),
        Err(fault) => Err(fault),
    }
}

/// No block is read after a fault.
pub proof fn lemma_fault_ends_collecting(blocks: Seq<Seq<char>>, n: nat, m: nat)
    requires
        n <= m,
        collected(blocks, n) is Err,
    ensures
        collected(blocks, m) == collected(blocks, n),
    decreases m,
{
    if n < m {
        lemma_fault_ends_collecting(blocks, n, (m - 1) as nat);
    }
}

/// Turns the keys of a section that was read into entries.
fn into_entries(keys: Vec<(String, Option<String>)>) -> (entries: Vec<(String, String)>)
    ensures
        entry_views(entries@) == entries_of(raw_entries(keys@)),
{
    let mut entries: Vec<(String, String)> = Vec::new();
    let ghost all = keys@;
    for pair in it: keys
        invariant
            all == it.seq(),
            entries@.len() == it.index(),
            forall|k: int|
                0 <= k < it.index() ==> (#[trigger] entries@[k]).0@ == all[k].0@ && entries@[k].1@
                    == entries_of(raw_entries(all))[k].1,
    {
        let (key, value) = pair;
        let value = match value {
            Some(value) => value,
            None => String::new(),
        };
        entries.push((key, value));
    }
    assert(entry_views(entries@) =~= entries_of(raw_entries(all)));
    entries
}

/// Reads one block into its sections and adds them to `sections`.
fn read_block(sections: &mut Vec<Section>, block: &str, headless: bool) -> (result: Result<
    (),
    Error,
>)
    ensures
        match ini_sections(block@) {
            Ok(raw) => result is Ok && views(final(sections)@) == views(old(sections)@)
                + sections_of(raw, headless),
            Err(message) => result is Err && result->Err_0@ == ErrorView::Config(message)
                && final(sections)@ == old(sections)@,
        },
{
    let raw = match read_ini(block) {
        Ok(raw) => raw,
        Err(message) => {
            return Err(Error::Config(message));
        },
    };
    let ghost read = raw_view(Ok::<Vec<(String, Vec<(String, Option<String>)>)>, String>(raw))->Ok_0;
    let ghost before = views(sections@);
    assert(read.take(0) =~= Seq::empty());
    assert(before + sections_of(read.take(0), headless) =~= before);
    for section in it: raw
        invariant
            read.len() == it.seq().len(),
            forall|k: int|
                0 <= k < read.len() ==> read[k] == ((#[trigger] it.seq()[k]).0@, raw_entries(
                    it.seq()[k].1@,
                )),
            views(sections@) == before + sections_of(read.take(it.index() as int), headless),
    {
        let (name, keys) = section;
        let name = if headless {
            "".to_owned()
        } else {
            name
        };
        let next = Section { name, entries: into_entries(keys) };
        proof {
            let upto = read.take(it.index() + 1);
            lemma_views_push(sections@, next);
            assert(sections_of(upto, headless) =~= sections_of(
                read.take(it.index() as int),
                headless,
            ).push(next@));
        }
        sections.push(next);
    }
    assert(read.take(read.len() as int) == read);
    Ok(())
}

/// Reads a configuration text into its sections: the text is cut into its
/// blocks, and each block is read by `ini::read`. Sections of one name stay
/// apart and in their order. The first block that the reader refuses ends
/// the reading with its message.
pub fn read_sections(text: &str) -> (result: Result<Vec<Section>, Error>)
    ensures
        match document(text@) {
            Ok(sections) => result is Ok && views(result->Ok_0@) == sections,
            Err(fault) => result is Err && result->Err_0@ == fault,
        },
{
    let blocks = split_blocks(text);
    let ghost all = views(blocks@);
    let mut sections: Vec<Section> = Vec::new();
    assert(views(sections@) =~= Seq::empty());
    let mut i: usize = 0;
    while i < blocks.len()
        invariant
            i <= blocks.len(),
            all == views(blocks@),
            all == blocks_of(text@),
            collected(all, i as nat) == Ok::<Seq<SectionView>, ErrorView>(views(sections@)),
        decreases blocks.len() - i,
    {
        match read_block(&mut sections, blocks[i].as_str(), i == 0) {
            Ok(_) => {},
            Err(fault) => {
                proof {
                    lemma_fault_ends_collecting(all, (i + 1) as nat, all.len());
                }
                return Err(fault);
            },
        }
        i += 1;
    }
    Ok(sections)
}

/// Loads the network that a configuration text describes.
pub fn load_text(text: &str) -> (result: Result<Instance, Error>)
    ensures
        match described(text@) {
            Ok(instance) => result is Ok && result->Ok_0@ == instance,
            Err(fault) => result is Err && result->Err_0@ == fault,
        },
        result matches Ok(instance) ==> instance@.valid(),
{
    match read_sections(text) {
        Ok(sections) => load(&sections),
        Err(fault) => Err(fault),
    }
}

} // verus!
