//! The channel to the tool process of one language: what the editor has
//! asked of the process and not handed over yet, whether the process has
//! acknowledged its initialization, and whether the connection has failed.
//!
//! The channel starts no process and sends nothing itself. Its owner takes
//! the queued messages and delivers them, and reports a connection that
//! failed with [`LspServerProcessChannel::fail`].

use crate::canonicalized_path::CanonicalizedPath;
use crate::lsp::language::LspLanguage;
use crate::syntax::Point;
use vstd::prelude::*;
use vstd::string::StringExecFns;

verus! {

/// What the parameters of a request are, as plain mathematical values.
pub struct RequestParamsView {
    pub path: Seq<char>,
    pub position: Point,
}

/// The parameters of a request about a place in a file.
#[derive(Debug, PartialEq, Eq)]
pub struct RequestParams {
    pub path: CanonicalizedPath,
    pub position: Point,
}

impl View for RequestParams {
    type V = RequestParamsView;

    open spec fn view(&self) -> RequestParamsView {
        RequestParamsView { path: self.path@, position: self.position }
    }
}

impl Clone for RequestParams {
    fn clone(&self) -> (res: RequestParams)
        ensures
            res@ == self@,
    {
        RequestParams { path: self.path.clone(), position: self.position }
    }
}

/// What a message is, as plain mathematical values.
pub enum MessageView {
    Initialize,
    RequestCompletion(RequestParamsView),
    RequestHover(RequestParamsView),
    RequestDefinition(RequestParamsView),
    RequestReferences(RequestParamsView),
    DocumentDidOpen(Seq<char>),
    DocumentDidChange(Seq<char>, Seq<char>),
    DocumentDidSave(Seq<char>),
    Shutdown,
}

/// A message for a tool process.
#[derive(Debug, PartialEq, Eq)]
pub enum ChannelMessage {
    /// Initialize the process that was just started.
    Initialize,
    RequestCompletion(RequestParams),
    RequestHover(RequestParams),
    RequestDefinition(RequestParams),
    RequestReferences(RequestParams),
    DocumentDidOpen(CanonicalizedPath),
    /// The document at the path has the given content now.
    DocumentDidChange(CanonicalizedPath, String),
    DocumentDidSave(CanonicalizedPath),
    /// End the process.
    Shutdown,
}

impl View for ChannelMessage {
    type V = MessageView;

    open spec fn view(&self) -> MessageView {
        match self {
            ChannelMessage::Initialize => MessageView::Initialize,
            ChannelMessage::RequestCompletion(params) => MessageView::RequestCompletion(params@),
            ChannelMessage::RequestHover(params) => MessageView::RequestHover(params@),
            ChannelMessage::RequestDefinition(params) => MessageView::RequestDefinition(params@),
            ChannelMessage::RequestReferences(params) => MessageView::RequestReferences(params@),
            ChannelMessage::DocumentDidOpen(path) => MessageView::DocumentDidOpen(path@),
            ChannelMessage::DocumentDidChange(path, content) => MessageView::DocumentDidChange(
                path@,
                content@,
            ),
            ChannelMessage::DocumentDidSave(path) => MessageView::DocumentDidSave(path@),
            ChannelMessage::Shutdown => MessageView::Shutdown,
        }
    }
}

impl Clone for ChannelMessage {
    fn clone(&self) -> (res: ChannelMessage)
        ensures
            res@ == self@,
    {
        match self {
            ChannelMessage::Initialize => ChannelMessage::Initialize,
            ChannelMessage::RequestCompletion(params) => ChannelMessage::RequestCompletion(
                params.clone(),
            ),
            ChannelMessage::RequestHover(params) => ChannelMessage::RequestHover(params.clone()),
            ChannelMessage::RequestDefinition(params) => ChannelMessage::RequestDefinition(
                params.clone(),
            ),
            ChannelMessage::RequestReferences(params) => ChannelMessage::RequestReferences(
                params.clone(),
            ),
            ChannelMessage::DocumentDidOpen(path) => ChannelMessage::DocumentDidOpen(path.clone()),
            ChannelMessage::DocumentDidChange(path, content) => ChannelMessage::DocumentDidChange(
                path.clone(),
                content.clone(),
            ),
            ChannelMessage::DocumentDidSave(path) => ChannelMessage::DocumentDidSave(path.clone()),
            ChannelMessage::Shutdown => ChannelMessage::Shutdown,
        }
    }
}

/// The label under which a failure to pass `message` on is reported: the
/// label of the call that sends such a message.
pub open spec fn label_of(message: MessageView) -> Seq<char> {
    match message {
        MessageView::Initialize => "Failed to start language server"@,
        MessageView::RequestCompletion(_) => "Failed to request completion"@,
        MessageView::RequestHover(_) => "Failed to request hover"@,
        MessageView::RequestDefinition(_) => "Failed to go to definition"@,
        MessageView::RequestReferences(_) => "Failed to find references"@,
        MessageView::DocumentDidOpen(_) => "Failed to start language server"@,
        MessageView::DocumentDidChange(_, _) => "Failed to notify document did change"@,
        MessageView::DocumentDidSave(_) => "Failed to notify document did save"@,
        MessageView::Shutdown => "Failed to shut down language server"@,
    }
}

/// The label under which a failure to pass `message` on is reported.
pub fn failure_label(message: &ChannelMessage) -> (res: String)
    ensures
        res@ == label_of(message@),
{
    match message {
        ChannelMessage::Initialize => String::from_str("Failed to start language server"),
        ChannelMessage::RequestCompletion(_) => String::from_str("Failed to request completion"),
        ChannelMessage::RequestHover(_) => String::from_str("Failed to request hover"),
        ChannelMessage::RequestDefinition(_) => String::from_str("Failed to go to definition"),
        ChannelMessage::RequestReferences(_) => String::from_str("Failed to find references"),
        ChannelMessage::DocumentDidOpen(_) => String::from_str("Failed to start language server"),
        ChannelMessage::DocumentDidChange(_, _) => String::from_str(
            "Failed to notify document did change",
        ),
        ChannelMessage::DocumentDidSave(_) => String::from_str(
            "Failed to notify document did save",
        ),
        ChannelMessage::Shutdown => String::from_str("Failed to shut down language server"),
    }
}

/// What a channel is, as plain mathematical values.
pub struct ChannelView {
    pub language: LspLanguage,
    /// Whether the process has acknowledged its initialization.
    pub initialized: bool,
    /// Why the connection failed, if it has.
    pub failure: Option<Seq<char>>,
    /// The messages that wait to be handed over, oldest first.
    pub outbox: Seq<MessageView>,
}

impl ChannelView {
    /// The channel of a process that was just started: not initialized,
    /// not failed, with the request to initialize as its one message.
    pub open spec fn spawned(language: LspLanguage) -> ChannelView {
        ChannelView {
            language,
            initialized: false,
            failure: None,
            outbox: seq![MessageView::Initialize],
        }
    }

    /// Whether the channel takes events: it has not failed, and its
    /// process is initialized.
    pub open spec fn accepts(self) -> bool {
        self.failure is None && self.initialized
    }

    /// The channel after `message` was sent as an event: queued where the
    /// channel takes events, dropped where it does not.
    pub open spec fn after_event(self, message: MessageView) -> ChannelView {
        if self.accepts() {
            ChannelView { outbox: self.outbox.push(message), ..self }
        } else {
            self
        }
    }

    /// The channel after the documents at `paths` were announced as open,
    /// one event each.
    pub open spec fn after_opening(self, paths: Seq<Seq<char>>) -> ChannelView
        decreases paths.len(),
    {
        if paths.len() == 0 {
            self
        } else {
            self.after_opening(paths.drop_last()).after_event(
                MessageView::DocumentDidOpen(paths.last()),
            )
        }
    }

    /// The channel after it was asked to shut down: the request is queued
    /// unless the connection has failed.
    pub open spec fn after_shutdown(self) -> ChannelView {
        if self.failure is None {
            ChannelView { outbox: self.outbox.push(MessageView::Shutdown), ..self }
        } else {
            self
        }
    }
}

/// What the start of a process came to, as plain mathematical values.
pub struct SpawnView {
    pub language: LspLanguage,
    /// Why the process did not start, if it did not.
    pub failure: Option<Seq<char>>,
}

/// What the start of the process of a language came to: success, or the
/// reason of the failure.
#[derive(Debug, PartialEq, Eq)]
pub struct SpawnOutcome {
    pub language: LspLanguage,
    pub result: Result<(), String>,
}

impl View for SpawnOutcome {
    type V = SpawnView;

    open spec fn view(&self) -> SpawnView {
        SpawnView {
            language: self.language,
            failure: match self.result {
                Ok(_) => None,
                Err(reason) => Some(reason@),
            },
        }
    }
}

/// Whether `res` is the outcome of an operation on a channel whose
/// connection is in the state `failure`: success on a sound connection,
/// else the reason of the failure.
pub open spec fn is_channel_outcome(res: Result<(), String>, failure: Option<Seq<char>>) -> bool {
    match res {
        Ok(_) => failure is None,
        Err(reason) => failure == Some(reason@),
    }
}

/// The channel to the tool process of one language.
#[derive(Debug)]
pub struct LspServerProcessChannel {
    language: LspLanguage,
    initialized: bool,
    failure: Option<String>,
    outbox: Vec<ChannelMessage>,
}

impl View for LspServerProcessChannel {
    type V = ChannelView;

    closed spec fn view(&self) -> ChannelView {
        ChannelView {
            language: self.language,
            initialized: self.initialized,
            failure: match self.failure {
                Some(reason) => Some(reason@),
                None => None,
            },
            outbox: self.outbox@.map_values(|m: ChannelMessage| m@),
        }
    }
}

impl LspServerProcessChannel {
    /// The channel of a process for `language` that was just started.
    pub fn spawn(language: LspLanguage) -> (res: LspServerProcessChannel)
        ensures
            res@ == ChannelView::spawned(language),
    {
        let mut outbox: Vec<ChannelMessage> = Vec::new();
        outbox.push(ChannelMessage::Initialize);
        let res = LspServerProcessChannel { language, initialized: false, failure: None, outbox };
        assert(res@.outbox =~= seq![MessageView::Initialize]);
        res
    }

    /// The language of the process.
    pub fn language(&self) -> (res: LspLanguage)
        ensures
            res == self@.language,
    {
        self.language
    }

    /// Whether the process has acknowledged its initialization.
    pub fn is_initialized(&self) -> (res: bool)
        ensures
            res == self@.initialized,
    {
        self.initialized
    }

    /// Records that the process has acknowledged its initialization.
    pub fn initialized(&mut self)
        ensures
            final(self)@ == (ChannelView { initialized: true, ..old(self)@ }),
    {
        self.initialized = true;
    }

    /// Records that the connection to the process has failed, and why.
    /// From now on every operation on the channel fails with `reason`.
    pub fn fail(&mut self, reason: String)
        ensures
            final(self)@ == (ChannelView { failure: Some(reason@), ..old(self)@ }),
    {
        self.failure = Some(reason);
    }

    /// Sends `message` as an event: it fails where the connection has
    /// failed, is dropped without a word where the process is not
    /// initialized yet, and is queued otherwise.
    pub fn send(&mut self, message: ChannelMessage) -> (res: Result<(), String>)
        ensures
            final(self)@ == old(self)@.after_event(message@),
            is_channel_outcome(res, old(self)@.failure),
    {
        match &self.failure {
            Some(reason) => Err(reason.clone()),
            None => {
                if self.initialized {
                    self.outbox.push(message);
                    assert(self@.outbox =~= old(self)@.outbox.push(message@));
                }
                Ok(())
            },
        }
    }

    /// Asks for completions at a place in a file.
    pub fn request_completion(&mut self, params: RequestParams) -> (res: Result<(), String>)
        ensures
            final(self)@ == old(self)@.after_event(MessageView::RequestCompletion(params@)),
            is_channel_outcome(res, old(self)@.failure),
    {
        self.send(ChannelMessage::RequestCompletion(params))
    }

    /// Asks for what is known of the thing at a place in a file.
    pub fn request_hover(&mut self, params: RequestParams) -> (res: Result<(), String>)
        ensures
            final(self)@ == old(self)@.after_event(MessageView::RequestHover(params@)),
            is_channel_outcome(res, old(self)@.failure),
    {
        self.send(ChannelMessage::RequestHover(params))
    }

    /// Asks where the thing at a place in a file is defined.
    pub fn request_definition(&mut self, params: RequestParams) -> (res: Result<(), String>)
        ensures
            final(self)@ == old(self)@.after_event(MessageView::RequestDefinition(params@)),
            is_channel_outcome(res, old(self)@.failure),
    {
        self.send(ChannelMessage::RequestDefinition(params))
    }

    /// Asks where the thing at a place in a file is used.
    pub fn request_references(&mut self, params: RequestParams) -> (res: Result<(), String>)
        ensures
            final(self)@ == old(self)@.after_event(MessageView::RequestReferences(params@)),
            is_channel_outcome(res, old(self)@.failure),
    {
        self.send(ChannelMessage::RequestReferences(params))
    }

    /// Announces that the document at `path` is open.
    pub fn document_did_open(&mut self, path: CanonicalizedPath) -> (res: Result<(), String>)
        ensures
            final(self)@ == old(self)@.after_event(MessageView::DocumentDidOpen(path@)),
            is_channel_outcome(res, old(self)@.failure),
    {
        self.send(ChannelMessage::DocumentDidOpen(path))
    }

    /// Announces that the documents at `paths` are open, in order.
    pub fn documents_did_open(&mut self, paths: Vec<CanonicalizedPath>) -> (res: Result<
        (),
        String,
    >)
        ensures
            final(self)@ == old(self)@.after_opening(
                paths@.map_values(|p: CanonicalizedPath| p@),
            ),
            is_channel_outcome(res, old(self)@.failure),
    {
        let ghost all = paths@.map_values(|p: CanonicalizedPath| p@);
        let mut i: usize = 0;
        while i < paths.len()
            invariant
                i <= paths.len(),
                all == paths@.map_values(|p: CanonicalizedPath| p@),
                self@ == old(self)@.after_opening(all.take(i as int)),
                self@.failure == old(self)@.failure,
            decreases paths.len() - i,
        {
            proof {
                let longer = all.take(i as int + 1);
                assert(longer.drop_last() =~= all.take(i as int));
                assert(longer.last() == paths@[i as int]@);
            }
            let _ = self.document_did_open(paths[i].clone());
            i = i + 1;
        }
        assert(all.take(i as int) =~= all);
        match &self.failure {
            Some(reason) => Err(reason.clone()),
            None => Ok(()),
        }
    }

    /// Announces that the document at `path` has the content `content`
    /// now.
    pub fn document_did_change(&mut self, path: &CanonicalizedPath, content: &str) -> (res: Result<
        (),
        String,
    >)
        ensures
            final(self)@ == old(self)@.after_event(
                MessageView::DocumentDidChange(path@, content@),
            ),
            is_channel_outcome(res, old(self)@.failure),
    {
        self.send(ChannelMessage::DocumentDidChange(path.clone(), content.to_owned()))
    }

    /// Announces that the document at `path` was saved.
    pub fn document_did_save(&mut self, path: &CanonicalizedPath) -> (res: Result<(), String>)
        ensures
            final(self)@ == old(self)@.after_event(MessageView::DocumentDidSave(path@)),
            is_channel_outcome(res, old(self)@.failure),
    {
        self.send(ChannelMessage::DocumentDidSave(path.clone()))
    }

    /// Asks the process to end, initialized or not; fails where the
    /// connection has failed.
    pub fn shutdown(&mut self) -> (res: Result<(), String>)
        ensures
            final(self)@ == old(self)@.after_shutdown(),
            is_channel_outcome(res, old(self)@.failure),
    {
        match &self.failure {
            Some(reason) => Err(reason.clone()),
            None => {
                self.outbox.push(ChannelMessage::Shutdown);
                assert(self@.outbox =~= old(self)@.outbox.push(MessageView::Shutdown));
                Ok(())
            },
        }
    }

    /// Hands over the messages that wait, oldest first, and leaves the
    /// channel with none.
    pub fn take_messages(&mut self) -> (res: Vec<ChannelMessage>)
        ensures
            res@.map_values(|m: ChannelMessage| m@) == old(self)@.outbox,
            final(self)@ == (ChannelView { outbox: Seq::empty(), ..old(self)@ }),
    {
        let mut taken: Vec<ChannelMessage> = Vec::new();
        std::mem::swap(&mut taken, &mut self.outbox);
        assert(self@.outbox =~= Seq::empty());
        taken
    }
}

} // verus!
