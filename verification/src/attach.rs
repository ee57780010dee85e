//! Choosing the files that go with a webhook message.
//!
//! Discord takes a limited number of files with a message, each of a limited
//! size. The files are put in order of priority, those that are too large
//! are left out, and the first ones that fit are taken.

use crate::text::{decimal, push_decimal, same_text};
use vstd::prelude::*;

verus! {

/// The largest file that is attached, in bytes.
pub const MAX_DISCORD_UPLOAD_SIZE: u64 = 8388608;

/// The largest number of files that are attached to one message.
pub const MAX_ATTACHMENTS: usize = 8;

/// A file that may be attached.
#[derive(Debug)]
pub struct FileCandidate {
    /// Where the file is.
    pub path: String,
    /// The name under which it is attached.
    pub filename: String,
    /// The extension of `path`, without the dot, if it has one.
    pub extension: Option<String>,
    /// The size of the file in bytes; 0 where it could not be found out.
    pub size: u64,
}

/// The mathematical value of a `FileCandidate`.
pub struct CandidateView {
    pub path: Seq<char>,
    pub filename: Seq<char>,
    pub extension: Option<Seq<char>>,
    pub size: u64,
}

impl View for FileCandidate {
    type V = CandidateView;

    open spec fn view(&self) -> CandidateView {
        CandidateView {
            path: self.path@,
            filename: self.filename@,
            extension: match self.extension {
                Some(e) => Some(e@),
                None => None,
            },
            size: self.size,
        }
    }
}

impl DeepView for FileCandidate {
    type V = CandidateView;

    open spec fn deep_view(&self) -> CandidateView {
        self@
    }
}

/// The rank of an extension: 1 for the compact audio formats, 2 for
/// metadata, 3 for images, 4 for everything else. A lower rank comes first.
pub open spec fn tier(extension: Option<Seq<char>>) -> int {
    match extension {
        Some(e) => if e == "m4a"@ || e == "ogg"@ || e == "opus"@ {
            1
        } else if e == "json"@ {
            2
        } else if e == "jpg"@ || e == "jpeg"@ || e == "png"@ {
            3
        } else {
            4
        },
        None => 4,
    }
}

/// Whether `a` may stand before `b`: it has a lower rank, or the same rank
/// and is not larger.
pub open spec fn may_precede(a: CandidateView, b: CandidateView) -> bool {
    tier(a.extension) < tier(b.extension) || (tier(a.extension) == tier(b.extension) && a.size
        <= b.size)
}

/// Whether each file may stand before all that follow it.
pub open spec fn in_priority_order(files: Seq<CandidateView>) -> bool {
    forall|i: int, j: int|
        0 <= i < j < files.len() ==> may_precede(#[trigger] files[i], #[trigger] files[j])
}

/// Where `x` goes among `files`: behind the last file that may stand before
/// it.
pub open spec fn slot(files: Seq<CandidateView>, x: CandidateView) -> int
    decreases files.len(),
{
    if files.len() == 0 {
        0
    } else if may_precede(files.last(), x) {
        files.len() as int
    } else {
        slot(files.drop_last(), x)
    }
}

/// The files in order of priority. Files of the same rank and size keep the
/// order in which they came.
pub open spec fn by_priority(files: Seq<CandidateView>) -> Seq<CandidateView>
    decreases files.len(),
{
    if files.len() == 0 {
        Seq::empty()
    } else {
        let before = by_priority(files.drop_last());
        before.insert(slot(before, files.last()), files.last())
    }
}

/// The files that are attached: going through `files` in order, each that is
/// not larger than the limit, until the largest number is reached.
pub open spec fn accepted(files: Seq<CandidateView>) -> Seq<CandidateView>
    decreases files.len(),
{
    if files.len() == 0 {
        Seq::empty()
    } else {
        let before = accepted(files.drop_last());
        if before.len() >= MAX_ATTACHMENTS || files.last().size > MAX_DISCORD_UPLOAD_SIZE {
            before
        } else {
            before.push(files.last())
        }
    }
}

/// Where a file goes: every file from there on may not stand before it, and
/// the file just before that place may.
pub proof fn lemma_slot(files: Seq<CandidateView>, x: CandidateView)
    ensures
        0 <= slot(files, x) <= files.len(),
        slot(files, x) > 0 ==> may_precede(files[slot(files, x) - 1], x),
        forall|k: int| slot(files, x) <= k < files.len() ==> !may_precede(#[trigger] files[k], x),
    decreases files.len(),
{
    if files.len() > 0 && !may_precede(files.last(), x) {
        let front = files.drop_last();
        lemma_slot(front, x);
        assert forall|k: int| slot(files, x) <= k < files.len() implies !may_precede(
            #[trigger] files[k],
            x,
        ) by {
            if k < front.len() {
                assert(front[k] == files[k]);
            }
        }
        if slot(files, x) > 0 {
            assert(front[slot(files, x) - 1] == files[slot(files, x) - 1]);
        }
    }
}

/// The files in order of priority are in priority order.
pub proof fn lemma_by_priority_ordered(files: Seq<CandidateView>)
    ensures
        in_priority_order(by_priority(files)),
        by_priority(files).len() == files.len(),
    decreases files.len(),
{
    if files.len() > 0 {
        let before = by_priority(files.drop_last());
        let x = files.last();
        let at = slot(before, x);
        lemma_by_priority_ordered(files.drop_last());
        lemma_slot(before, x);
        let after = before.insert(at, x);
        assert forall|i: int, j: int| 0 <= i < j < after.len() implies may_precede(
            #[trigger] after[i],
            #[trigger] after[j],
        ) by {
            if j < at {
                assert(after[i] == before[i] && after[j] == before[j]);
            } else if j == at {
                assert(after[i] == before[i]);
                if i < at - 1 {
                    assert(may_precede(before[i], before[at - 1]));
                }
            } else if i < at {
                assert(after[i] == before[i] && after[j] == before[j - 1]);
            } else if i == at {
                assert(after[j] == before[j - 1]);
                assert(!may_precede(before[j - 1], x));
            } else {
                assert(after[i] == before[i - 1] && after[j] == before[j - 1]);
            }
        }
    }
}

/// Ordering by priority neither adds a file nor loses one.
pub proof fn lemma_by_priority_keeps_files(files: Seq<CandidateView>)
    ensures
        by_priority(files).to_multiset() == files.to_multiset(),
    decreases files.len(),
{
    if files.len() == 0 {
        assert(by_priority(files) =~= files);
    } else {
        let front = files.drop_last();
        let before = by_priority(front);
        let x = files.last();
        let at = slot(before, x);
        lemma_by_priority_keeps_files(front);
        lemma_slot(before, x);
        let after = before.insert(at, x);
        assert(after.remove(at) =~= before);
        vstd::seq_lib::to_multiset_remove(after, at);
        after.to_multiset_ensures();
        assert(after.contains(x)) by {
            assert(after[at] == x);
        }
        assert(after.to_multiset() =~= before.to_multiset().insert(x));
        assert(front.push(x) =~= files);
        vstd::seq_lib::to_multiset_build(front, x);
    }
}

/// Whether two files have the same rank and the same size.
pub open spec fn alike(a: CandidateView, b: CandidateView) -> bool {
    tier(a.extension) == tier(b.extension) && a.size == b.size
}

/// Those of `files` that have the rank and size of `x`, in their order.
pub open spec fn those_like(files: Seq<CandidateView>, x: CandidateView) -> Seq<CandidateView>
    decreases files.len(),
{
    if files.len() == 0 {
        Seq::empty()
    } else if alike(files.last(), x) {
        those_like(files.drop_last(), x).push(files.last())
    } else {
        those_like(files.drop_last(), x)
    }
}

/// A file that is put in before no file of its rank and size comes last
/// among them.
proof fn lemma_those_like_insert(files: Seq<CandidateView>, at: int, y: CandidateView, x: CandidateView)
    requires
        0 <= at <= files.len(),
        alike(y, x) ==> forall|k: int| at <= k < files.len() ==> !alike(#[trigger] files[k], x),
    ensures
        those_like(files.insert(at, y), x) == if alike(y, x) {
            those_like(files, x).push(y)
        } else {
            those_like(files, x)
        },
    decreases files.len(),
{
    let after = files.insert(at, y);
    if at == files.len() {
        assert(after.drop_last() =~= files);
        assert(after.last() == y);
    } else {
        let front = files.drop_last();
        assert(after.drop_last() =~= front.insert(at, y));
        assert(after.last() == files.last());
        assert(files[files.len() - 1] == files.last());
        assert forall|k: int| at <= k < front.len() implies (alike(y, x) ==> !alike(
            #[trigger] front[k],
            x,
        )) by {
            assert(front[k] == files[k]);
        }
        lemma_those_like_insert(front, at, y, x);
    }
}

/// Files of the same rank and size keep their order when the files are put
/// in order of priority.
pub proof fn lemma_by_priority_stable(files: Seq<CandidateView>, x: CandidateView)
    ensures
        those_like(by_priority(files), x) == those_like(files, x),
    decreases files.len(),
{
    if files.len() > 0 {
        let front = files.drop_last();
        let before = by_priority(front);
        let y = files.last();
        let at = slot(before, y);
        lemma_by_priority_stable(front, x);
        lemma_slot(before, y);
        lemma_those_like_insert(before, at, y, x);
    }
}

/// No more files are attached than Discord takes, none of them is larger
/// than the limit, and all of them are among the files given.
pub proof fn lemma_accepted_within_limits(files: Seq<CandidateView>)
    ensures
        accepted(files).len() <= MAX_ATTACHMENTS,
        accepted(files).len() <= files.len(),
        forall|i: int|
            0 <= i < accepted(files).len() ==> (#[trigger] accepted(files)[i]).size
                <= MAX_DISCORD_UPLOAD_SIZE && files.contains(accepted(files)[i]),
    decreases files.len(),
{
    if files.len() > 0 {
        let front = files.drop_last();
        lemma_accepted_within_limits(front);
        assert forall|i: int| 0 <= i < accepted(files).len() implies (#[trigger] accepted(
            files,
        )[i]).size <= MAX_DISCORD_UPLOAD_SIZE && files.contains(accepted(files)[i]) by {
            if i < accepted(front).len() {
                let k = choose|k: int| 0 <= k < front.len() && front[k] == accepted(front)[i];
                assert(files[k] == accepted(front)[i]);
            } else {
                assert(files[files.len() - 1] == accepted(files)[i]);
            }
        }
    }
}

/// The rank of an extension.
pub fn tier_of(extension: &Option<String>) -> (rank: u8)
    ensures
        rank == tier(
            match *extension {
                Some(e) => Some(e@),
                None => None,
            },
        ),
{
    match extension {
        Some(e) => {
            let e = e.as_str();
            if same_text(e, "m4a") || same_text(e, "ogg") || same_text(e, "opus") {
                1
            } else if same_text(e, "json") {
                2
            } else if same_text(e, "jpg") || same_text(e, "jpeg") || same_text(e, "png") {
                3
            } else {
                4
            }
        },
        None => 4,
    }
}

/// Whether `a` may stand before `b`.
fn precedes(a: &FileCandidate, b: &FileCandidate) -> (r: bool)
    ensures
        r == may_precede(a@, b@),
{
    let rank_a = tier_of(&a.extension);
    let rank_b = tier_of(&b.extension);
    rank_a < rank_b || (rank_a == rank_b && a.size <= b.size)
}

/// Puts the files in order of priority.
pub fn sort_by_priority(files: Vec<FileCandidate>) -> (sorted: Vec<FileCandidate>)
    ensures
        sorted.deep_view() == by_priority(files.deep_view()),
{
    let ghost all = files.deep_view();
    let mut sorted: Vec<FileCandidate> = Vec::new();
    assert(sorted.deep_view() =~= Seq::empty());
    for file in it: files
        invariant
            it.seq() == files@,
            all == files.deep_view(),
            sorted.deep_view() == by_priority(all.take(it.index() as int)),
    {
        let ghost before = sorted.deep_view();
        proof {
            let i = it.index() as int;
            assert(all.take(i + 1).drop_last() =~= all.take(i));
            assert(all.take(i + 1).last() == file@);
        }
        let mut at: usize = sorted.len();
        assert(before.take(at as int) =~= before);
        while at > 0 && !precedes(&sorted[at - 1], &file)
            invariant
                at <= sorted@.len(),
                before == sorted.deep_view(),
                slot(before, file@) == slot(before.take(at as int), file@),
            decreases at,
        {
            proof {
                assert(before.take(at as int).drop_last() =~= before.take(at - 1));
                assert(before.take(at as int).last() == sorted@[at - 1]@);
            }
            at -= 1;
        }
        proof {
            assert(before.take(sorted@.len() as int) =~= before);
            if at > 0 {
                assert(before.take(at as int).last() == sorted@[at - 1]@);
            }
            assert(slot(before, file@) == at);
        }
        sorted.insert(at, file);
        assert(sorted.deep_view() =~= before.insert(at as int, file@));
    }
    assert(all.take(files@.len() as int) =~= all);
    sorted
}

/// Takes the files that are attached from files in order of priority.
pub fn take_accepted(files: Vec<FileCandidate>) -> (taken: Vec<FileCandidate>)
    ensures
        taken.deep_view() == accepted(files.deep_view()),
{
    let ghost all = files.deep_view();
    let mut taken: Vec<FileCandidate> = Vec::new();
    assert(taken.deep_view() =~= Seq::empty());
    for file in it: files
        invariant
            it.seq() == files@,
            all == files.deep_view(),
            taken.deep_view() == accepted(all.take(it.index() as int)),
    {
        let ghost before = taken.deep_view();
        proof {
            let i = it.index() as int;
            assert(all.take(i + 1).drop_last() =~= all.take(i));
            assert(all.take(i + 1).last() == file@);
        }
        if taken.len() < MAX_ATTACHMENTS && file.size <= MAX_DISCORD_UPLOAD_SIZE {
            taken.push(file);
            assert(taken.deep_view() =~= before.push(file@));
        }
    }
    assert(all.take(files@.len() as int) =~= all);
    taken
}

/// Chooses the files that are attached to a message, in the order in which
/// they are attached.
pub fn select_attachments(files: Vec<FileCandidate>) -> (chosen: Vec<FileCandidate>)
    ensures
        chosen.deep_view() == accepted(by_priority(files.deep_view())),
{
    take_accepted(sort_by_priority(files))
}

/// The extension of a path, as `std::path::Path::extension` gives it.
///
/// What counts as the last component of a path depends on the platform, so
/// nothing is promised of the result.
#[verifier::external_body]
fn path_extension(path: &str) -> Option<String> {
    std::path::Path::new(path).extension().and_then(|e| e.to_str()).map(|e| e.to_owned())
}

impl FileCandidate {
    /// The file at `path`, to be attached as `filename`, with the size that
    /// was found for it. The extension is taken from `path`.
    pub fn new(path: String, filename: String, size: u64) -> (file: FileCandidate)
        ensures
            file@.path == path@,
            file@.filename == filename@,
            file@.size == size,
    {
        let extension = path_extension(path.as_str());
        FileCandidate { path, filename, extension, size }
    }
}

/// The media type under which a file with this extension is sent.
pub open spec fn mime_of(extension: Option<Seq<char>>) -> Seq<char> {
    match extension {
        Some(e) => if e == "mp3"@ {
            "audio/mpeg"@
        } else if e == "ogg"@ {
            "audio/ogg"@
        } else if e == "opus"@ {
            "audio/opus"@
        } else if e == "m4a"@ {
            "audio/mp4"@
        } else if e == "json"@ {
            "application/json"@
        } else if e == "jpg"@ || e == "jpeg"@ {
            "image/jpeg"@
        } else if e == "png"@ {
            "image/png"@
        } else {
            "application/octet-stream"@
        },
        None => "application/octet-stream"@,
    }
}

/// The media type under which a file with this extension is sent.
pub fn mime_type(extension: &Option<String>) -> (mime: &'static str)
    ensures
        mime@ == mime_of(
            match *extension {
                Some(e) => Some(e@),
                None => None,
            },
        ),
{
    match extension {
        Some(e) => {
            let e = e.as_str();
            if same_text(e, "mp3") {
                "audio/mpeg"
            } else if same_text(e, "ogg") {
                "audio/ogg"
            } else if same_text(e, "opus") {
                "audio/opus"
            } else if same_text(e, "m4a") {
                "audio/mp4"
            } else if same_text(e, "json") {
                "application/json"
            } else if same_text(e, "jpg") || same_text(e, "jpeg") {
                "image/jpeg"
            } else if same_text(e, "png") {
                "image/png"
            } else {
                "application/octet-stream"
            }
        },
        None => "application/octet-stream",
    }
}

/// One file of a multipart form.
#[derive(Debug)]
pub struct FilePart {
    /// The name of the form field: `file0`, `file1` and so on.
    pub field: String,
    /// The name under which the file is attached.
    pub filename: String,
    /// The media type of the file.
    pub mime: String,
    /// Where the bytes of the file are read from.
    pub path: String,
}

/// The mathematical value of a `FilePart`.
pub struct PartView {
    pub field: Seq<char>,
    pub filename: Seq<char>,
    pub mime: Seq<char>,
    pub path: Seq<char>,
}

impl View for FilePart {
    type V = PartView;

    open spec fn view(&self) -> PartView {
        PartView {
            field: self.field@,
            filename: self.filename@,
            mime: self.mime@,
            path: self.path@,
        }
    }
}

/// The form part for the file that is attached at position `i`.
pub open spec fn part_of(i: nat, file: CandidateView) -> PartView {
    PartView {
        field: "file"@ + decimal(i),
        filename: file.filename,
        mime: mime_of(file.extension),
        path: file.path,
    }
}

/// The form parts for the files that are attached, in their order.
pub fn file_parts(chosen: &Vec<FileCandidate>) -> (parts: Vec<FilePart>)
    ensures
        parts@.len() == chosen@.len(),
        forall|i: int|
            0 <= i < parts@.len() ==> (#[trigger] parts@[i])@ == part_of(i as nat, chosen@[i]@),
{
    let mut parts: Vec<FilePart> = Vec::new();
    let mut i: usize = 0;
    while i < chosen.len()
        invariant
            i <= chosen@.len(),
            parts@.len() == i,
            forall|k: int| 0 <= k < i ==> (#[trigger] parts@[k])@ == part_of(k as nat, chosen@[k]@),
        decreases chosen@.len() - i,
    {
        let file = &chosen[i];
        let mut field = "file".to_owned();
        push_decimal(&mut field, i as u64);
        parts.push(
            FilePart {
                field,
                filename: file.filename.clone(),
                mime: mime_type(&file.extension).to_owned(),
                path: file.path.clone(),
            },
        );
        i += 1;
    }
    parts
}

} // verus!
