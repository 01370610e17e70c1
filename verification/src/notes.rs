use vstd::prelude::*;

verus! {

/// The notes of an instance: shown, or being edited (with the text as it was
/// when editing began, and the text in the editor).
#[derive(Debug)]
pub enum InstanceNotes {
    Viewing { content: String },
    Editing { before: String, text: String },
}

/// The notes as they stand: the shown text, or while editing, the text from
/// before the edit.
pub open spec fn text_of(n: InstanceNotes) -> String {
    match n {
        InstanceNotes::Viewing { content } => content,
        InstanceNotes::Editing { before, .. } => before,
    }
}

/// The notes once the editor is opened on them.
pub open spec fn opened(n: InstanceNotes) -> InstanceNotes {
    InstanceNotes::Editing { before: text_of(n), text: text_of(n) }
}

/// The notes once an edit is dropped.
pub open spec fn cancelled(n: InstanceNotes) -> InstanceNotes {
    InstanceNotes::Viewing { content: text_of(n) }
}

/// The notes once an edit is kept (outside editing, as they were).
pub open spec fn saved(n: InstanceNotes) -> InstanceNotes {
    match n {
        InstanceNotes::Editing { text, .. } => InstanceNotes::Viewing { content: text },
        InstanceNotes::Viewing { .. } => n,
    }
}

impl InstanceNotes {
    /// The notes as they stand (see `text_of`).
    pub fn get_text(&self) -> (r: &str)
        ensures
            r@ == text_of(*self)@,
    {
        match self {
            InstanceNotes::Viewing { content } => content.as_str(),
            InstanceNotes::Editing { before, .. } => before.as_str(),
        }
    }

    fn current(&self) -> (r: String)
        ensures
            r == text_of(*self),
    {
        match self {
            InstanceNotes::Viewing { content } => content.clone(),
            InstanceNotes::Editing { before, .. } => before.clone(),
        }
    }

    /// Starts editing: the editor opens with the notes as they stand.
    pub fn open_edit(&mut self)
        ensures
            *final(self) == opened(*old(self)),
    {
        let content = self.current();
        let before = self.current();
        *self = InstanceNotes::Editing { before, text: content };
    }

    /// Replaces the text in the editor; outside editing nothing changes.
    pub fn edit(&mut self, new_text: String)
        ensures
            match *old(self) {
                InstanceNotes::Editing { before, .. } => *final(self) == InstanceNotes::Editing {
                    before,
                    text: new_text,
                },
                InstanceNotes::Viewing { .. } => *final(self) == *old(self),
            },
    {
        if let InstanceNotes::Editing { text, .. } = self {
            *text = new_text;
        }
    }

    /// Ends editing and keeps the edited text, which is then shown. Gives the
    /// text to write to the instance's notes (none outside editing).
    pub fn save_edit(&mut self) -> (r: Option<String>)
        ensures
            *final(self) == saved(*old(self)),
            r == match *old(self) {
                InstanceNotes::Editing { text, .. } => Some(text),
                InstanceNotes::Viewing { .. } => None::<String>,
            },
    {
        match self {
            InstanceNotes::Editing { text, .. } => {
                let content = text.clone();
                let written = text.clone();
                *self = InstanceNotes::Viewing { content };
                Some(written)
            },
            InstanceNotes::Viewing { .. } => None,
        }
    }

    /// Ends editing and drops the edit: the notes from before it are shown.
    pub fn cancel_edit(&mut self)
        ensures
            *final(self) == cancelled(*old(self)),
    {
        let content = self.current();
        *self = InstanceNotes::Viewing { content };
    }
}

/// Opening the editor and dropping the edit shows the notes as they were;
/// keeping an edit that changed nothing does the same.
pub proof fn law_notes_edit_round_trip(n: InstanceNotes)
    ensures
        text_of(cancelled(opened(n))) == text_of(n),
        saved(opened(n)) == cancelled(opened(n)),
        n is Viewing ==> cancelled(opened(n)) == n,
{
}

} // verus!
