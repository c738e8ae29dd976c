use vstd::prelude::*;

verus! {

/// Which main screen the header's tab row points at.
#[derive(Debug, Clone, Copy, PartialEq, Eq, Structural)]
pub enum HeaderScreen {
    Configure,
    SetUp,
    Stream,
}

/// What the operator did in the header.
#[derive(Debug)]
pub enum HeaderMessage {
    ScreenTabClicked(HeaderScreen),
    ProfileNameChange(String),
    ProfileImport,
    ProfileExport,
    ProfileAdd,
    OpenEndStreamConfirm,
    EndStreamConfirmYes,
    EndStreamConfirmCancel,
}

/// What the surrounding application should do about a header message.
#[derive(Debug)]
pub enum Update {
    Idle,
    Switch(HeaderScreen),
    ChangeProfileName(String),
    ImportProfile,
    ExportProfile,
    NewProfile,
    EndStream,
}

/// The header's own state: whether the end-stream confirmation is showing.
#[derive(Debug, Clone, Copy)]
pub struct Header {
    is_showing_end_stream_confirm: bool,
}

impl View for Header {
    type V = bool;

    closed spec fn view(&self) -> bool {
        self.is_showing_end_stream_confirm
    }
}

impl Header {
    pub fn new() -> (r: Header)
        ensures
            r@ == false,
    {
        Header { is_showing_end_stream_confirm: false }
    }

    /// Turns one header message into the action the application should take:
    /// ending the stream asks for confirmation first, and only a confirmed
    /// answer reaches the application.
    pub fn update(&mut self, message: HeaderMessage) -> (r: Update)
        ensures
            match message {
                HeaderMessage::ScreenTabClicked(s) => final(self)@ == old(self)@ && r
                    == Update::Switch(s),
                HeaderMessage::ProfileNameChange(n) => final(self)@ == old(self)@ && (
                r matches Update::ChangeProfileName(m) && m@ == n@),
                HeaderMessage::ProfileImport => final(self)@ == old(self)@ && r
                    == Update::ImportProfile,
                HeaderMessage::ProfileExport => final(self)@ == old(self)@ && r
                    == Update::ExportProfile,
                HeaderMessage::ProfileAdd => final(self)@ == old(self)@ && r == Update::NewProfile,
                HeaderMessage::OpenEndStreamConfirm => final(self)@ == true && r is Idle,
                HeaderMessage::EndStreamConfirmCancel => final(self)@ == false && r is Idle,
                HeaderMessage::EndStreamConfirmYes => final(self)@ == false && r
                    == Update::EndStream,
            },
    {
        match message {
            HeaderMessage::ScreenTabClicked(screen) => Update::Switch(screen),
            HeaderMessage::ProfileNameChange(new_name) => Update::ChangeProfileName(new_name),
            HeaderMessage::ProfileImport => Update::ImportProfile,
            HeaderMessage::ProfileExport => Update::ExportProfile,
            HeaderMessage::ProfileAdd => Update::NewProfile,
            HeaderMessage::OpenEndStreamConfirm => {
                self.is_showing_end_stream_confirm = true;
                Update::Idle
            },
            HeaderMessage::EndStreamConfirmCancel => {
                self.is_showing_end_stream_confirm = false;
                Update::Idle
            },
            HeaderMessage::EndStreamConfirmYes => {
                self.is_showing_end_stream_confirm = false;
                Update::EndStream
            },
        }
    }
}

} // verus!
