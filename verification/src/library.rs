use vstd::prelude::*;

use crate::ordering::{is_name_order, name_order, names_view, order_by_name, reorder};
use crate::recording::{metrics_of, Recording, RecordingMetadataView, RecordingMetrics};
use crate::text::{chars_of, copy_range, joined, push_str, string_from_chars, trim, trimmed_bounds};

verus! {

/// A validated recording found in the sessions directory.
#[derive(Debug)]
pub struct RecordingLibraryEntry {
    pub path: String,
    pub recording: Recording,
    pub metrics: RecordingMetrics,
    pub file_size_bytes: u64,
}

/// A file of the sessions directory that did not load as a recording, and why.
#[derive(Debug, Clone, PartialEq, Eq)]
pub struct InvalidRecordingEntry {
    pub path: String,
    pub reason: String,
}

/// The title of a recording with surrounding whitespace removed, when it has a
/// title that is not blank.
pub open spec fn shown_title(metadata: RecordingMetadataView) -> Option<Seq<char>> {
    match metadata.title {
        Some(title) => if trim(title@).len() > 0 {
            Some(trim(title@))
        } else {
            None
        },
        None => None,
    }
}

/// The title the shell shows for a recording: its own title, else the name of
/// its file, else a placeholder.
pub open spec fn title_with_fallback(title: Option<Seq<char>>, file_name: Option<Seq<char>>) -> Seq<
    char,
> {
    match title {
        Some(title) => title,
        None => match file_name {
            Some(name) => name,
            None => "<unnamed recording>"@,
        },
    }
}

/// The last component of `path`, as `std::path::Path::file_name` finds it.
///
/// What separates components, and which final components count as names,
/// depends on the platform the library is built for; the contract states
/// nothing of the result.
#[verifier::external_body]
fn path_file_name(path: &str) -> (name: Option<String>) {
    match std::path::Path::new(path).file_name() {
        Some(name) => name.to_str().map(str::to_owned),
        None => None,
    }
}

fn trimmed_text(text: &String) -> (trimmed: String)
    ensures
        trimmed@ == trim(text@),
{
    let chars = chars_of(text.as_str());
    let (start, end) = trimmed_bounds(chars.as_slice());
    let kept = copy_range(chars.as_slice(), start, end);
    string_from_chars(kept.as_slice())
}

/// `title` is what the library shows for a recording with `metadata` under
/// some file name: its own title when that is not blank, else the file name, or
/// a placeholder when the path has none.
pub open spec fn is_display_title(title: Seq<char>, metadata: RecordingMetadataView) -> bool {
    exists|file_name: Option<Seq<char>>|
        title == #[trigger] title_with_fallback(shown_title(metadata), file_name)
}

/// The title to show for a recording whose file is named `file_name`.
pub fn display_title_with_file_name(file_name: Option<String>, recording: &Recording) -> (title:
    String)
    ensures
        title@ == title_with_fallback(
            shown_title(recording@.0),
            match file_name {
                Some(name) => Some(name@),
                None => None,
            },
        ),
{
    let metadata = recording.metadata();
    if let Some(own_title) = &metadata.title {
        let trimmed = trimmed_text(own_title);
        if trimmed.as_str().unicode_len() > 0 {
            return trimmed;
        }
    }
    match file_name {
        Some(name) => name,
        None => "<unnamed recording>".to_owned(),
    }
}

/// The title to show for a recording loaded from `path`: its own title when it
/// is not blank, otherwise the file name of `path`.
pub fn display_title_for_recording(path: &str, recording: &Recording) -> (title: String)
    ensures
        shown_title(recording@.0) matches Some(own) ==> title@ == own,
        is_display_title(title@, recording@.0),
{
    let file_name = path_file_name(path);
    let ghost name_view = crate::event::optional_text_view(file_name);
    let title = display_title_with_file_name(file_name, recording);
    assert(title@ == title_with_fallback(shown_title(recording@.0), name_view));
    title
}

impl RecordingLibraryEntry {
    /// The library entry of a recording loaded from `path`, a file of
    /// `file_size_bytes` bytes.
    pub fn from_loaded(path: String, recording: Recording, file_size_bytes: u64) -> (entry: Self)
        ensures
            entry.path@ == path@,
            entry.recording@ == recording@,
            metrics_of(recording@.1, entry.metrics),
            entry.file_size_bytes == file_size_bytes,
    {
        let metrics = recording.metrics();
        RecordingLibraryEntry { path, recording, metrics, file_size_bytes }
    }

    /// The title the library shows for this entry.
    pub fn display_title(&self) -> (title: String)
        ensures
            shown_title(self.recording@.0) matches Some(own) ==> title@ == own,
            is_display_title(title@, self.recording@.0),
    {
        display_title_for_recording(self.path.as_str(), &self.recording)
    }
}

/// The recordings of the sessions directory and the one selected.
#[derive(Debug)]
pub struct RecordingLibraryState {
    pub session_directory: String,
    pub recordings: Vec<RecordingLibraryEntry>,
    pub invalid_recordings: Vec<InvalidRecordingEntry>,
    pub selected_recording_index: Option<usize>,
}

impl RecordingLibraryState {
    /// The selected entry, when the selection names one.
    pub open spec fn selected_entry(&self) -> Option<RecordingLibraryEntry> {
        match self.selected_recording_index {
            Some(index) => if index < self.recordings@.len() {
                Some(self.recordings@[index as int])
            } else {
                None
            },
            None => None,
        }
    }

    /// The selected entry, when the selection names one.
    pub fn selected_recording(&self) -> (entry: Option<&RecordingLibraryEntry>)
        ensures
            match entry {
                Some(found) => self.selected_entry() == Some(*found),
                None => self.selected_entry() is None,
            },
    {
        match self.selected_recording_index {
            Some(index) => if index < self.recordings.len() {
                Some(&self.recordings[index])
            } else {
                None
            },
            None => None,
        }
    }

    /// Selects the entry at `index`; an index past the end changes nothing.
    pub fn select(&mut self, index: usize)
        ensures
            final(self).session_directory == old(self).session_directory,
            final(self).recordings == old(self).recordings,
            final(self).invalid_recordings == old(self).invalid_recordings,
            final(self).selected_recording_index == (if index < old(self).recordings@.len() {
                Some(index)
            } else {
                old(self).selected_recording_index
            }),
    {
        if index < self.recordings.len() {
            self.selected_recording_index = Some(index);
        }
    }

    /// A library of the recordings found in `session_directory`, each list
    /// sorted by file name: the entry whose path matches `selected_path` is
    /// selected, else the first entry. The file names are those that
    /// `std::path::Path::file_name` finds in the paths.
    pub fn from_discovered(
        session_directory: String,
        recordings: Vec<RecordingLibraryEntry>,
        invalid_recordings: Vec<InvalidRecordingEntry>,
        selected_path: Option<&str>,
    ) -> (library: Self)
        ensures
            library.session_directory == session_directory,
            exists|names: Seq<Option<Seq<char>>>, order: Seq<usize>|
                #[trigger] is_name_order(order, names) && names.len() == recordings@.len()
                    && library.recordings@.len() == recordings@.len() && forall|k: int|
                    0 <= k < recordings@.len() ==> library.recordings@[k] == recordings@[order[k] as int],
            exists|names: Seq<Option<Seq<char>>>, order: Seq<usize>|
                #[trigger] is_name_order(order, names) && names.len() == invalid_recordings@.len()
                    && library.invalid_recordings@.len() == invalid_recordings@.len() && forall|k: int|
                    0 <= k < invalid_recordings@.len() ==> library.invalid_recordings@[k]
                        == invalid_recordings@[order[k] as int],
            recordings@.len() == 0 ==> library.selected_recording_index is None,
            recordings@.len() > 0 ==> (library.selected_recording_index matches Some(index) && index
                < recordings@.len()),
            recordings@.len() > 0 && selected_path is None ==> library.selected_recording_index == Some(
                0usize,
            ),
            selected_path matches Some(path) ==> forall|p: int|
                0 <= p < library.recordings@.len() && library.recordings@[p].path@ == path@
                    ==> library.selected_recording_index->0 <= p,
    {
        let mut names: Vec<Option<String>> = Vec::new();
        let mut index: usize = 0;
        while index < recordings.len()
            invariant
                index <= recordings@.len(),
                names@.len() == index,
            decreases recordings@.len() - index,
        {
            names.push(path_file_name(recordings[index].path.as_str()));
            index += 1;
        }
        let mut invalid_names: Vec<Option<String>> = Vec::new();
        let mut index: usize = 0;
        while index < invalid_recordings.len()
            invariant
                index <= invalid_recordings@.len(),
                invalid_names@.len() == index,
            decreases invalid_recordings@.len() - index,
        {
            invalid_names.push(path_file_name(invalid_recordings[index].path.as_str()));
            index += 1;
        }
        let mut selection: Vec<bool> = Vec::new();
        let mut index: usize = 0;
        while index < recordings.len()
            invariant
                index <= recordings@.len(),
                selection@.len() == index,
                selected_path is None ==> forall|j: int| 0 <= j < index ==> !selection@[j],
                selected_path matches Some(path) ==> forall|j: int|
                    0 <= j < index && recordings@[j].path@ == path@ ==> selection@[j],
            decreases recordings@.len() - index,
        {
            let flagged = match selected_path {
                Some(path) => same_path(recordings[index].path.as_str(), path),
                None => false,
            };
            selection.push(flagged);
            index += 1;
        }
        let ghost found = recordings@;
        let ghost found_invalid = invalid_recordings@;
        let library = RecordingLibraryState::from_named(
            session_directory,
            recordings,
            &names,
            &selection,
            invalid_recordings,
            &invalid_names,
        );
        proof {
            let order = choose|order: Seq<usize>|
                #[trigger] is_name_order(order, names_view(names@)) && library.recordings@.len()
                    == found.len() && (forall|k: int|
                    0 <= k < found.len() ==> library.recordings@[k] == found[order[k] as int]) && (
                found.len() == 0 ==> library.selected_recording_index is None) && (found.len() > 0
                    ==> (library.selected_recording_index matches Some(index)
                    && is_first_flagged(order, selection@, index as int)));
            assert(is_name_order(order, names_view(names@)) && names_view(names@).len()
                == found.len());
            if found.len() > 0 {
                let chosen = library.selected_recording_index->0 as int;
                if selected_path is None {
                    assert(!selection@[order[chosen] as int]);
                }
                if selected_path is Some {
                    let path = selected_path->0;
                    assert forall|p: int|
                        0 <= p < library.recordings@.len() && library.recordings@[p].path@ == path@
                            implies chosen <= p by {
                        assert(library.recordings@[p] == found[order[p] as int]);
                        assert(selection@[order[p] as int]);
                    }
                }
            }
            let order_invalid = choose|order: Seq<usize>|
                #[trigger] is_name_order(order, names_view(invalid_names@))
                    && library.invalid_recordings@.len() == found_invalid.len() && forall|k: int|
                    0 <= k < found_invalid.len() ==> library.invalid_recordings@[k]
                        == found_invalid[order[k] as int];
            assert(is_name_order(order_invalid, names_view(invalid_names@)) && names_view(
                invalid_names@,
            ).len() == found_invalid.len());
        }
        library
    }

    /// A library of the recordings found in `session_directory`, where
    /// `recording_names[i]` is the file name of `recordings[i]`, `selection[i]`
    /// tells whether `recordings[i]` is the file to select, and `invalid_names[i]`
    /// is the file name of `invalid_recordings[i]`. Each list is sorted by file
    /// name, entries with equal names keeping their order; the first entry in
    /// that order that is to be selected is selected, else the first entry.
    pub fn from_named(
        session_directory: String,
        recordings: Vec<RecordingLibraryEntry>,
        recording_names: &Vec<Option<String>>,
        selection: &Vec<bool>,
        invalid_recordings: Vec<InvalidRecordingEntry>,
        invalid_names: &Vec<Option<String>>,
    ) -> (library: Self)
        requires
            recording_names@.len() == recordings@.len(),
            selection@.len() == recordings@.len(),
            invalid_names@.len() == invalid_recordings@.len(),
        ensures
            library.session_directory == session_directory,
            exists|order: Seq<usize>|
                #[trigger] is_name_order(order, names_view(recording_names@))
                    && library.recordings@.len() == recordings@.len() && (forall|k: int|
                    0 <= k < recordings@.len() ==> library.recordings@[k] == recordings@[order[k] as int])
                    && (recordings@.len() == 0 ==> library.selected_recording_index is None) && (
                recordings@.len() > 0 ==> (library.selected_recording_index matches Some(index)
                    && is_first_flagged(order, selection@, index as int))),
            exists|order: Seq<usize>|
                #[trigger] is_name_order(order, names_view(invalid_names@))
                    && library.invalid_recordings@.len() == invalid_recordings@.len() && forall|k: int|
                    0 <= k < invalid_recordings@.len() ==> library.invalid_recordings@[k]
                        == invalid_recordings@[order[k] as int],
    {
        let order = name_order(recording_names);
        let ghost found = recordings@;
        let recordings = reorder(recordings, &order);
        let invalid_recordings = order_by_name(invalid_recordings, invalid_names);
        let mut index: usize = 0;
        while index < order.len() && !selection[order[index]]
            invariant
                index <= order@.len(),
                order@.len() == selection@.len(),
                is_name_order(order@, names_view(recording_names@)),
                forall|k: int| 0 <= k < index ==> !selection@[#[trigger] order@[k] as int],
            decreases order@.len() - index,
        {
            index += 1;
        }
        let selected_recording_index = if recordings.len() == 0 {
            None
        } else if index == order.len() {
            Some(0)
        } else {
            Some(index)
        };
        proof {
            assert(recordings@.len() == found.len());
            assert(is_name_order(order@, names_view(recording_names@)));
            if found.len() > 0 {
                assert(is_first_flagged(order@, selection@, selected_recording_index->0 as int));
            }
        }
        RecordingLibraryState { session_directory, recordings, invalid_recordings, selected_recording_index }
    }
}

/// `index` is the first position of `order` whose entry is flagged, or `0`
/// when no entry is flagged.
pub open spec fn is_first_flagged(order: Seq<usize>, flags: Seq<bool>, index: int) -> bool {
    &&& 0 <= index < order.len()
    &&& forall|k: int| 0 <= k < index ==> !flags[#[trigger] order[k] as int]
    &&& (flags[order[index] as int] || (index == 0 && forall|k: int|
        0 <= k < order.len() ==> !flags[#[trigger] order[k] as int]))
}

/// Whether two paths name the same file path, compared as `std::path::Path`
/// compares them: component by component.
///
/// The contract states only that equal texts are equal paths; which other
/// texts compare equal depends on the platform the library is built for.
#[verifier::external_body]
fn same_path(left: &str, right: &str) -> (same: bool)
    ensures
        left@ == right@ ==> same,
{
    std::path::Path::new(left) == std::path::Path::new(right)
}

/// The line of an unreadable file: its file name, else a placeholder, and why
/// it did not load.
pub open spec fn invalid_line(name: Option<Seq<char>>, reason: Seq<char>) -> Seq<char> {
    (match name {
        Some(name) => name,
        None => "<unnamed recording>"@,
    }) + ": "@ + reason
}

/// The lines of the unreadable files, each named by `names[i]`.
pub open spec fn invalid_lines(names: Seq<Option<Seq<char>>>, entries: Seq<InvalidRecordingEntry>) -> Seq<
    Seq<char>,
> {
    Seq::new(entries.len(), |i: int| invalid_line(names[i], entries[i].reason@))
}

/// One line per unreadable file, naming each file by `names[i]`.
pub fn build_invalid_summary_with_names(
    invalid_recordings: &[InvalidRecordingEntry],
    names: &Vec<Option<String>>,
) -> (text: String)
    requires
        names@.len() == invalid_recordings@.len(),
    ensures
        text@ == joined(invalid_lines(names_view(names@), invalid_recordings@), "\n"@),
{
    let ghost lines = invalid_lines(names_view(names@), invalid_recordings@);
    let mut text = String::new();
    let mut index: usize = 0;
    while index < invalid_recordings.len()
        invariant
            index <= invalid_recordings@.len(),
            names@.len() == invalid_recordings@.len(),
            lines == invalid_lines(names_view(names@), invalid_recordings@),
            text@ == joined(lines.subrange(0, index as int), "\n"@),
        decreases invalid_recordings@.len() - index,
    {
        let ghost before = text@;
        if index > 0 {
            push_str(&mut text, "\n");
        }
        match &names[index] {
            Some(name) => push_str(&mut text, name.as_str()),
            None => push_str(&mut text, "<unnamed recording>"),
        }
        push_str(&mut text, ": ");
        push_str(&mut text, invalid_recordings[index].reason.as_str());
        proof {
            let prefix = lines.subrange(0, index as int + 1);
            assert(prefix.drop_last() =~= lines.subrange(0, index as int));
            assert(prefix.last() == lines[index as int]);
            if index == 0 {
                assert(text@ =~= joined(prefix, "\n"@));
            } else {
                assert(text@ =~= joined(prefix.drop_last(), "\n"@) + "\n"@ + prefix.last());
            }
        }
        index += 1;
    }
    assert(lines.subrange(0, invalid_recordings@.len() as int) =~= lines);
    text
}

/// One line per file of the sessions directory that did not load, naming the
/// file and the reason; empty when every file loaded.
pub fn build_invalid_recordings_summary(recording_library: &RecordingLibraryState) -> (text: String)
    ensures
        exists|names: Seq<Option<Seq<char>>>|
            names.len() == recording_library.invalid_recordings@.len() && text@ == joined(
                #[trigger] invalid_lines(names, recording_library.invalid_recordings@),
                "\n"@,
            ),
        recording_library.invalid_recordings@.len() == 0 ==> text@.len() == 0,
        recording_library.invalid_recordings@.len() > 0 ==> text@.len() > 0,
{
    let mut names: Vec<Option<String>> = Vec::new();
    let mut index: usize = 0;
    while index < recording_library.invalid_recordings.len()
        invariant
            index <= recording_library.invalid_recordings@.len(),
            names@.len() == index,
        decreases recording_library.invalid_recordings@.len() - index,
    {
        names.push(path_file_name(recording_library.invalid_recordings[index].path.as_str()));
        index += 1;
    }
    let text = build_invalid_summary_with_names(recording_library.invalid_recordings.as_slice(), &names);
    proof {
        let lines = invalid_lines(names_view(names@), recording_library.invalid_recordings@);
        if lines.len() > 0 {
            lemma_joined_not_shorter_than_last(lines, "\n"@);
            let last = lines.last();
            assert(last == invalid_line(
                names_view(names@)[lines.len() - 1],
                recording_library.invalid_recordings@[lines.len() - 1].reason@,
            ));
            reveal_strlit(": ");
            assert(last.len() >= 2);
        }
        assert(names_view(names@).len() == recording_library.invalid_recordings@.len());
    }
    text
}

proof fn lemma_joined_not_shorter_than_last(parts: Seq<Seq<char>>, separator: Seq<char>)
    requires
        parts.len() > 0,
    ensures
        joined(parts, separator).len() >= parts.last().len(),
{
}

/// The titles the library list shows: one per recording, or a hint when there
/// are none.
pub fn build_recording_title_items(recording_library: &RecordingLibraryState) -> (titles: Vec<String>)
    ensures
        recording_library.recordings@.len() == 0 ==> titles@.len() == 1 && titles@[0]@
            == "No validated recordings found yet"@,
        recording_library.recordings@.len() > 0 ==> titles@.len() == recording_library.recordings@.len(),
        forall|i: int|
            0 <= i < recording_library.recordings@.len() ==> (shown_title(
                recording_library.recordings@[i].recording@.0,
            ) matches Some(own) ==> #[trigger] titles@[i]@ == own),
        recording_library.recordings@.len() > 0 ==> forall|i: int|
            0 <= i < recording_library.recordings@.len() ==> is_display_title(
                #[trigger] titles@[i]@,
                recording_library.recordings@[i].recording@.0,
            ),
{
    let mut titles: Vec<String> = Vec::new();
    if recording_library.recordings.len() == 0 {
        titles.push("No validated recordings found yet".to_owned());
        return titles;
    }
    let mut index: usize = 0;
    while index < recording_library.recordings.len()
        invariant
            index <= recording_library.recordings@.len(),
            titles@.len() == index,
            forall|i: int|
                0 <= i < index ==> (shown_title(recording_library.recordings@[i].recording@.0) matches Some(
                    own,
                ) ==> #[trigger] titles@[i]@ == own),
            forall|i: int|
                0 <= i < index ==> is_display_title(
                    #[trigger] titles@[i]@,
                    recording_library.recordings@[i].recording@.0,
                ),
        decreases recording_library.recordings@.len() - index,
    {
        titles.push(recording_library.recordings[index].display_title());
        index += 1;
    }
    titles
}

} // verus!
