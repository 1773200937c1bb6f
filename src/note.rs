//! Markdown notes: one file per record, named after its key, holding its
//! title, its authors and its URL.

use vstd::prelude::*;
use crate::bib::{entry_authors, opt_view, persons_view, read_authors, PersonName};
use crate::store::Record;
use crate::text::push_str;
use crate::CiteNoteError;

verus! {

/// A note to be written: its file name and its text.
#[derive(Debug, Clone)]
pub struct Note {
    pub filename: String,
    pub content: String,
}

/// The text of each chunk of an entry's title, if present.
pub uninterp spec fn entry_title(e: biblatex::Entry) -> Option<Seq<Seq<char>>>;

/// An entry's URL, if present.
pub uninterp spec fn entry_url(e: biblatex::Entry) -> Option<Seq<char>>;

/// The view of an optional list of strings.
pub open spec fn texts_view(t: Option<Vec<String>>) -> Option<Seq<Seq<char>>> {
    match t {
        Some(v) => Some(v@.map_values(|s: String| s@)),
        None => None,
    }
}

/// Relies on `biblatex::Entry::title`: the text of each chunk of the title,
/// or `None` when the field is missing.
#[verifier::external_body]
fn read_title(e: &biblatex::Entry) -> (r: Option<Vec<String>>)
    ensures
        texts_view(r) == entry_title(*e),
{
    e.title().ok().map(|chunks| chunks.iter().map(|c| c.v.get().to_string()).collect())
}

/// Relies on `biblatex::Entry::url`: the URL, or `None` when the field is
/// missing.
#[verifier::external_body]
fn read_url(e: &biblatex::Entry) -> (r: Option<String>)
    ensures
        opt_view(r) == entry_url(*e),
{
    e.url().ok()
}

/// The texts of `parts`, one after the other.
pub open spec fn concat_all(parts: Seq<Seq<char>>) -> Seq<char>
    decreases parts.len(),
{
    if parts.len() == 0 {
        Seq::empty()
    } else {
        concat_all(parts.drop_last()) + parts.last()
    }
}

/// The title, shown authors and URL of a note, when every field is present
/// and the title has text.
pub open spec fn output_spec(
    title: Option<Seq<Seq<char>>>,
    authors: Option<Seq<PersonName>>,
    url: Option<Seq<char>>,
) -> Option<(Seq<char>, Seq<char>, Seq<char>)> {
    match (title, authors, url) {
        (Some(t), Some(a), Some(u)) => if t.len() > 0 {
            Some((concat_all(t), joined_names(a), u))
        } else {
            None
        },
        _ => None,
    }
}

/// The note fields of an entry.
pub open spec fn entry_output(e: biblatex::Entry) -> Option<(Seq<char>, Seq<char>, Seq<char>)> {
    output_spec(entry_title(e), entry_authors(e), entry_url(e))
}

/// The text of a note from its fields, with or without the empty-notes tag.
pub open spec fn note_text(f: (Seq<char>, Seq<char>, Seq<char>), tagged: bool) -> Seq<char> {
    note_body(f.0, f.1, f.2) + if tagged { "#no_notes"@ } else { Seq::empty() }
}

/// The name of the note file of the record with key `key`.
pub open spec fn filename_spec(key: Seq<char>) -> Seq<char> {
    key + ".md"@
}

/// A person's name as it is shown: given name, prefix, surname and suffix,
/// each present part separated by a space.
pub open spec fn display_spec(p: PersonName) -> Seq<char> {
    (if p.given_name@.len() > 0 { p.given_name@ + " "@ } else { Seq::empty() })
        + (if p.prefix@.len() > 0 { p.prefix@ + " "@ } else { Seq::empty() })
        + p.name@
        + (if p.suffix@.len() > 0 { " "@ + p.suffix@ } else { Seq::empty() })
}

/// The shown names of `persons`, separated by ` and `.
pub open spec fn joined_names(persons: Seq<PersonName>) -> Seq<char>
    decreases persons.len(),
{
    if persons.len() == 0 {
        Seq::empty()
    } else if persons.len() == 1 {
        display_spec(persons[0])
    } else {
        joined_names(persons.drop_last()) + " and "@ + display_spec(persons.last())
    }
}

/// The body of a note: a title heading, the authors in italics, the URL and
/// a rule.
pub open spec fn note_body(title: Seq<char>, authors: Seq<char>, url: Seq<char>) -> Seq<char> {
    "# "@ + title + "\n\n*"@ + authors + "*\n"@ + url + "\n---\n"@
}

/// The file name of the note of the record with key `key`.
pub fn create_filename(key: &String) -> (r: String)
    ensures
        r@ == filename_spec(key@),
{
    let mut r = key.clone();
    push_str(&mut r, ".md");
    r
}

/// A person's name as it is shown.
pub fn display_name(p: &PersonName) -> (r: String)
    ensures
        r@ == display_spec(*p),
{
    let mut r = String::new();
    if p.given_name.unicode_len() > 0 {
        push_str(&mut r, p.given_name.as_str());
        push_str(&mut r, " ");
    }
    let ghost a = r@;
    if p.prefix.unicode_len() > 0 {
        push_str(&mut r, p.prefix.as_str());
        push_str(&mut r, " ");
    }
    let ghost b = r@;
    push_str(&mut r, p.name.as_str());
    let ghost c = r@;
    if p.suffix.unicode_len() > 0 {
        push_str(&mut r, " ");
        push_str(&mut r, p.suffix.as_str());
    }
    assert(r@ =~= display_spec(*p));
    r
}

/// The shown names of `persons`, separated by ` and `.
pub fn join_names(persons: &Vec<PersonName>) -> (r: String)
    ensures
        r@ == joined_names(persons@),
{
    let mut r = String::new();
    let mut i: usize = 0;
    while i < persons.len()
        invariant
            i <= persons@.len(),
            r@ == joined_names(persons@.take(i as int)),
        decreases persons@.len() - i,
    {
        let ghost before = r@;
        if i > 0 {
            push_str(&mut r, " and ");
        }
        let shown = display_name(&persons[i]);
        push_str(&mut r, shown.as_str());
        assert(persons@.take(i + 1).drop_last() =~= persons@.take(i as int));
        assert(r@ =~= joined_names(persons@.take(i + 1)));
        i = i + 1;
    }
    assert(persons@.take(persons@.len() as int) =~= persons@);
    r
}

/// All chunks of a title, one after the other.
pub fn concat_title(parts: &Vec<String>) -> (r: String)
    ensures
        r@ == concat_all(parts@.map_values(|s: String| s@)),
{
    let ghost views = parts@.map_values(|s: String| s@);
    let mut r = String::new();
    let mut i: usize = 0;
    while i < parts.len()
        invariant
            views == parts@.map_values(|s: String| s@),
            i <= parts@.len(),
            r@ == concat_all(views.take(i as int)),
        decreases parts@.len() - i,
    {
        push_str(&mut r, parts[i].as_str());
        assert(views.take(i + 1).drop_last() =~= views.take(i as int));
        i = i + 1;
    }
    assert(views.take(parts@.len() as int) =~= views);
    r
}

/// The title, the shown authors and the URL of a note, from the fields as
/// read: a missing field, or a title without text, is an error.
pub fn get_output_field(
    title: Option<Vec<String>>,
    authors: Option<Vec<PersonName>>,
    url: Option<String>,
) -> (r: crate::Result<(String, String, String)>)
    ensures
        match output_spec(texts_view(title), persons_view(authors), opt_view(url)) {
            Some(f) => r matches Ok(v) && v.0@ == f.0 && v.1@ == f.1 && v.2@ == f.2,
            None => r is Err,
        },
        title is None ==> (r matches Err(e) && e.message@ == "Failed to get title field"@),
        title matches Some(t) && t@.len() == 0 ==> (r matches Err(e) && e.message@ == "Title field is empty"@),
        title matches Some(t) && t@.len() > 0 && authors is None ==> (r matches Err(e) && e.message@ == "Failed to get author field"@),
        title matches Some(t) && t@.len() > 0 && authors is Some && url is None ==> (r matches Err(e) && e.message@ == "Failed to get url field"@),
{
    let title = match title {
        Some(t) => t,
        None => {
            return Err(CiteNoteError::new("Failed to get title field"));
        },
    };
    if title.len() == 0 {
        return Err(CiteNoteError::new("Title field is empty"));
    }
    let authors = match authors {
        Some(a) => join_names(&a),
        None => {
            return Err(CiteNoteError::new("Failed to get author field"));
        },
    };
    let url = match url {
        Some(u) => u,
        None => {
            return Err(CiteNoteError::new("Failed to get url field"));
        },
    };
    let whole = concat_title(&title);
    Ok((whole, authors, url))
}

/// The body of a note, as `note_body` gives it.
pub fn render_body(title: &String, authors: &String, url: &String) -> (r: String)
    ensures
        r@ == note_body(title@, authors@, url@),
{
    let mut r = String::new();
    push_str(&mut r, "# ");
    push_str(&mut r, title.as_str());
    push_str(&mut r, "\n\n*");
    push_str(&mut r, authors.as_str());
    push_str(&mut r, "*\n");
    push_str(&mut r, url.as_str());
    push_str(&mut r, "\n---\n");
    assert(r@ =~= note_body(title@, authors@, url@));
    r
}

/// The text of a note: its body followed by an empty-notes tag.
pub fn create_md_output(title: &String, authors: &String, url: &String) -> (r: String)
    ensures
        r@ == note_body(title@, authors@, url@) + "#no_notes"@,
{
    let mut r = render_body(title, authors, url);
    push_str(&mut r, "#no_notes");
    r
}

/// The record's title, shown authors and URL, as its entry gives them.
pub fn note_fields(record: &Record) -> (r: crate::Result<(String, String, String)>)
    ensures
        match entry_output(record.entry) {
            Some(f) => r matches Ok(v) && v.0@ == f.0 && v.1@ == f.1 && v.2@ == f.2,
            None => r is Err,
        },
{
    get_output_field(read_title(&record.entry), read_authors(&record.entry), read_url(&record.entry))
}

/// The positions, from `i` on, of the records whose note does not exist yet.
pub open spec fn pending(exists: Seq<bool>, i: int) -> Seq<int>
    decreases exists.len() - i,
{
    if i < 0 || i >= exists.len() {
        Seq::empty()
    } else if exists[i] {
        pending(exists, i + 1)
    } else {
        seq![i] + pending(exists, i + 1)
    }
}

/// Every pending record has its note fields.
pub open spec fn all_renderable(records: Seq<Record>, exists: Seq<bool>) -> bool {
    forall|j: int| 0 <= j < pending(exists, 0).len() ==>
        #[trigger] entry_output(records[pending(exists, 0)[j]].entry) is Some
}

/// `notes` are the notes of the pending records, in order.
pub open spec fn notes_match(records: Seq<Record>, exists: Seq<bool>, notes: Seq<Note>, tagged: bool) -> bool {
    &&& notes.len() == pending(exists, 0).len()
    &&& forall|j: int| 0 <= j < notes.len() ==> {
        let rec = records[pending(exists, 0)[j]];
        &&& #[trigger] notes[j].filename@ == filename_spec(rec.key@)
        &&& notes[j].content@ == note_text(entry_output(rec.entry)->Some_0, tagged)
    }
}

/// The notes of the records whose note does not exist yet (`exists[i]` is
/// false), in order; fails on the first of them that lacks a note field.
pub fn render_notes(records: &Vec<Record>, exists: &Vec<bool>, tagged: bool) -> (r: crate::Result<Vec<Note>>)
    requires
        exists@.len() == records@.len(),
    ensures
        r is Ok <==> all_renderable(records@, exists@),
        r matches Ok(notes) ==> notes_match(records@, exists@, notes@, tagged),
{
    let mut notes: Vec<Note> = Vec::new();
    let mut i: usize = 0;
    while i < records.len()
        invariant
            exists@.len() == records@.len(),
            i <= records@.len(),
            pending(exists@, 0) == pending_prefix(exists@, i as int) + pending(exists@, i as int),
            notes@.len() == pending_prefix(exists@, i as int).len(),
            forall|j: int| 0 <= j < notes@.len() ==> {
                let rec = records@[pending_prefix(exists@, i as int)[j]];
                &&& #[trigger] notes@[j].filename@ == filename_spec(rec.key@)
                &&& entry_output(rec.entry) is Some
                &&& notes@[j].content@ == note_text(entry_output(rec.entry)->Some_0, tagged)
            },
        decreases records@.len() - i,
    {
        proof {
            lemma_pending_step(exists@, i as int);
        }
        if !exists[i] {
            let (title, authors, url) = match note_fields(&records[i]) {
                Ok(v) => v,
                Err(e) => {
                    proof {
                        let k = pending_prefix(exists@, i as int).len() as int;
                        assert(pending(exists@, i as int)[0] == i);
                        assert(pending(exists@, 0)[k] == i);
                        assert(entry_output(records@[pending(exists@, 0)[k]].entry) is None);
                    }
                    return Err(e);
                },
            };
            let filename = create_filename(&records[i].key);
            let content = if tagged {
                create_md_output(&title, &authors, &url)
            } else {
                render_body(&title, &authors, &url)
            };
            proof {
                if !tagged {
                    assert(content@ =~= note_text(entry_output(records@[i as int].entry)->Some_0, tagged));
                }
            }
            let ghost before = notes@;
            notes.push(Note { filename, content });
            proof {
                assert(pending_prefix(exists@, i + 1) == pending_prefix(exists@, i as int).push(i as int));
                assert forall|j: int| 0 <= j < notes@.len() implies {
                    let rec = records@[pending_prefix(exists@, i + 1)[j]];
                    &&& #[trigger] notes@[j].filename@ == filename_spec(rec.key@)
                    &&& entry_output(rec.entry) is Some
                    &&& notes@[j].content@ == note_text(entry_output(rec.entry)->Some_0, tagged)
                } by {
                    if j < before.len() {
                        assert(notes@[j] == before[j]);
                        assert(pending_prefix(exists@, i + 1)[j] == pending_prefix(exists@, i as int)[j]);
                    }
                }
            }
        }
        i = i + 1;
    }
    proof {
        assert(pending(exists@, i as int) == Seq::<int>::empty());
        assert(pending(exists@, 0) =~= pending_prefix(exists@, i as int));
        assert forall|j: int| 0 <= j < pending(exists@, 0).len() implies
            #[trigger] entry_output(records@[pending(exists@, 0)[j]].entry) is Some by {
            assert(notes@[j].filename@ == filename_spec(records@[pending_prefix(exists@, i as int)[j]].key@));
        }
    }
    Ok(notes)
}

/// The notes of the records whose note does not exist yet (`exists[i]` is
/// false), in order, each ending with the empty-notes tag.
pub fn new(records: &Vec<Record>, exists: &Vec<bool>) -> (r: crate::Result<Vec<Note>>)
    requires
        exists@.len() == records@.len(),
    ensures
        r is Ok <==> all_renderable(records@, exists@),
        r matches Ok(notes) ==> notes_match(records@, exists@, notes@, true),
{
    render_notes(records, exists, true)
}

/// The positions below `i` of the records whose note does not exist yet.
pub open spec fn pending_prefix(exists: Seq<bool>, i: int) -> Seq<int>
    decreases i,
{
    if i <= 0 || i > exists.len() {
        Seq::empty()
    } else if exists[i - 1] {
        pending_prefix(exists, i - 1)
    } else {
        pending_prefix(exists, i - 1).push(i - 1)
    }
}

proof fn lemma_pending_step(exists: Seq<bool>, i: int)
    requires
        0 <= i < exists.len(),
    ensures
        pending_prefix(exists, i) + pending(exists, i) == pending_prefix(exists, i + 1) + pending(exists, i + 1),
{
    if exists[i] {
    } else {
        assert(pending_prefix(exists, i) + pending(exists, i) =~= pending_prefix(exists, i + 1) + pending(exists, i + 1));
    }
}

} // verus!
