//! Overriding a file of a checkpoint so that it can be put back.
//!
//! A file of the checkpoint's own is moved aside, never overwritten; a marker records what
//! was applied and whether there was an original. The moves themselves are made by the
//! caller: here stands what each does to the three files.

use vstd::prelude::*;

verus! {

/// The three files of an override: the one that counts, the checkpoint's own where it is
/// parked, and what the marker records.
#[verifier::ext_equal]
pub struct Folder<M> {
    pub file: Option<Seq<char>>,
    pub backup: Option<Seq<char>>,
    pub marker: Option<M>,
}

impl<M> Folder<M> {
    /// An override is in place: it is marked, and the file it describes is still there.
    pub open spec fn overridden(self) -> bool {
        self.marker is Some && self.file is Some
    }

    /// The file moved aside.
    pub open spec fn backed_up(self) -> Self {
        Folder { file: None, backup: self.file, ..self }
    }

    /// A new file written, and marked.
    pub open spec fn installed(self, content: Seq<char>, marker: M) -> Self {
        Folder { file: Some(content), marker: Some(marker), ..self }
    }

    /// The parked file moved back.
    pub open spec fn restored(self) -> Self {
        Folder { file: self.backup, backup: None, ..self }
    }

    pub open spec fn removed(self) -> Self {
        Folder { file: None, ..self }
    }

    pub open spec fn unmarked(self) -> Self {
        Folder { marker: None, ..self }
    }

    /// An override applied. The first backup is the checkpoint's genuine original, so a
    /// second override does not take another.
    pub open spec fn applied(self, content: Seq<char>, marker: M) -> Self {
        if self.overridden() || self.file is None {
            self.installed(content, marker)
        } else {
            self.backed_up().installed(content, marker)
        }
    }

    /// An override undone, by whether there was an original.
    pub open spec fn reverted(self, had_original: bool) -> Self {
        if had_original {
            self.restored().unmarked()
        } else {
            self.removed().unmarked()
        }
    }
}

/// Undoing an override puts the checkpoint's file back exactly as it was: the same content,
/// or none when it never had one.
pub proof fn law_a_reverted_override_leaves_the_original<M>(
    f: Folder<M>,
    content: Seq<char>,
    marker: M,
)
    requires
        !f.overridden(),
    ensures
        f.applied(content, marker).overridden(),
        f.applied(content, marker).reverted(f.file is Some).file == f.file,
        !f.applied(content, marker).reverted(f.file is Some).overridden(),
        f.file is Some ==> f.applied(content, marker).reverted(true).backup is None,
{
}

/// Applying twice and undoing once restores the checkpoint's genuine original, not the
/// first override.
pub proof fn law_a_second_override_keeps_the_original<M>(
    f: Folder<M>,
    first: Seq<char>,
    first_marker: M,
    second: Seq<char>,
    second_marker: M,
)
    requires
        !f.overridden(),
    ensures
        f.applied(first, first_marker).applied(second, second_marker) == f.applied(
            second,
            second_marker,
        ),
        f.applied(first, first_marker).applied(second, second_marker).reverted(
            f.file is Some,
        ).file == f.file,
{
    assert(f.applied(first, first_marker).applied(second, second_marker) =~= f.applied(
        second,
        second_marker,
    ));
}

} // verus!
