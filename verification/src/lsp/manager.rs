//! The orchestrator of the tool processes: one channel for each language
//! that a file has asked for, and the routing of what happens to a file to
//! the channels of its languages.

use crate::canonicalized_path::CanonicalizedPath;
use crate::lsp::language::{languages_of, LanguageRegistry, LspLanguage, RuleView};
use crate::lsp::process::{
    failure_label, label_of, ChannelMessage, ChannelView, LspServerProcessChannel, MessageView,
    RequestParams, SpawnOutcome, SpawnView,
};
use crate::search::{first_index, first_match, lemma_first_index, lemma_indices_exist};
use crate::utils::{
    consolidate_errors, consolidated, is_outcome, reasons_of, AggregatedFailure, FailureView,
};
use vstd::prelude::*;

verus! {

/// What a manager is, as plain mathematical values: the rules of its
/// registry, and its channels in the order in which they were spawned.
pub struct ManagerView {
    pub rules: Seq<RuleView>,
    pub channels: Seq<ChannelView>,
}

/// The channels and the reasons of failure that a call has arrived at
/// after some of the languages of a file.
pub struct Routing {
    pub channels: Seq<ChannelView>,
    pub failures: Seq<Seq<char>>,
}

/// The channels of `language`.
pub open spec fn for_language(language: LspLanguage) -> spec_fn(ChannelView) -> bool {
    |channel: ChannelView| channel.language == language
}

/// The place of the channel of `language` among `channels`, or their
/// number where it has none.
pub open spec fn channel_index(channels: Seq<ChannelView>, language: LspLanguage) -> int {
    first_index(channels, for_language(language))
}

/// Whether no two of `channels` are for one language.
pub open spec fn distinct_languages(channels: Seq<ChannelView>) -> bool {
    forall|i: int, j: int|
        0 <= i < j < channels.len() ==> (#[trigger] channels[i]).language != (
        #[trigger] channels[j]).language
}

/// One step of routing an event: the channel of `language`, if there is
/// one, gets `message`, and its failure, if it has failed, is noted.
pub open spec fn route_step(
    before: Routing,
    language: LspLanguage,
    message: MessageView,
) -> Routing {
    let index = channel_index(before.channels, language);
    if index < before.channels.len() {
        Routing {
            channels: before.channels.update(
                index,
                before.channels[index].after_event(message),
            ),
            failures: match before.channels[index].failure {
                Some(reason) => before.failures.push(reason),
                None => before.failures,
            },
        }
    } else {
        before
    }
}

/// Routing `message` to the channels of `languages`, one language after
/// the other: a failed channel does not keep the event from the others.
pub open spec fn routed(
    channels: Seq<ChannelView>,
    languages: Seq<LspLanguage>,
    message: MessageView,
) -> Routing
    decreases languages.len(),
{
    if languages.len() == 0 {
        Routing { channels, failures: Seq::empty() }
    } else {
        route_step(routed(channels, languages.drop_last(), message), languages.last(), message)
    }
}

/// The outcomes of starting the process of `language`.
pub open spec fn spawn_of(language: LspLanguage) -> spec_fn(SpawnView) -> bool {
    |outcome: SpawnView| outcome.language == language
}

/// One step of opening a file. A channel that is initialized gets the news
/// that the document at `path` is open, and a channel that is not
/// initialized yet gets nothing. A language without a channel gets one
/// where `spawns` says that its process has started; where `spawns` says
/// that the start failed, the reason is noted and no channel is kept; and
/// where `spawns` says nothing of the language, nothing happens.
pub open spec fn open_step(
    before: Routing,
    language: LspLanguage,
    path: Seq<char>,
    spawns: Seq<SpawnView>,
) -> Routing {
    let index = channel_index(before.channels, language);
    if index < before.channels.len() {
        if before.channels[index].initialized {
            route_step(before, language, MessageView::DocumentDidOpen(path))
        } else {
            before
        }
    } else {
        match first_match(spawns, spawn_of(language)) {
            Some(outcome) => match outcome.failure {
                Some(reason) => Routing {
                    channels: before.channels,
                    failures: before.failures.push(reason),
                },
                None => Routing {
                    channels: before.channels.push(ChannelView::spawned(language)),
                    failures: before.failures,
                },
            },
            None => before,
        }
    }
}

/// Opening the file at `path` for `languages`, one language after the
/// other, with `spawns` as what the starts of processes came to.
pub open spec fn opened(
    channels: Seq<ChannelView>,
    languages: Seq<LspLanguage>,
    path: Seq<char>,
    spawns: Seq<SpawnView>,
) -> Routing
    decreases languages.len(),
{
    if languages.len() == 0 {
        Routing { channels, failures: Seq::empty() }
    } else {
        open_step(
            opened(channels, languages.drop_last(), path, spawns),
            languages.last(),
            path,
            spawns,
        )
    }
}

/// Those of `languages` that have no channel among `channels`, in order.
pub open spec fn unspawned(channels: Seq<ChannelView>, languages: Seq<LspLanguage>) -> Seq<
    LspLanguage,
>
    decreases languages.len(),
{
    if languages.len() == 0 {
        Seq::empty()
    } else if channel_index(channels, languages.last()) == channels.len() {
        unspawned(channels, languages.drop_last()).push(languages.last())
    } else {
        unspawned(channels, languages.drop_last())
    }
}

/// Whether a call that routes `message` for the file at `path` under
/// the label `label` leads from `pre` to `post` with the result `res`:
/// every channel of a language of the file has got the event in turn, and
/// the result gathers the failures.
pub open spec fn is_invocation(
    pre: ManagerView,
    path: Seq<char>,
    label: Seq<char>,
    message: MessageView,
    post: ManagerView,
    res: Result<(), AggregatedFailure>,
) -> bool {
    let routing = routed(pre.channels, languages_of(pre.rules, path), message);
    &&& post == ManagerView { rules: pre.rules, channels: routing.channels }
    &&& is_outcome(res, consolidated(label, routing.failures))
}

/// What a message on its way to a process is, as plain mathematical
/// values.
pub struct OutgoingView {
    pub language: LspLanguage,
    pub message: MessageView,
}

/// A message on its way to the process of a language.
#[derive(Debug, PartialEq, Eq)]
pub struct Outgoing {
    pub language: LspLanguage,
    pub message: ChannelMessage,
}

impl View for Outgoing {
    type V = OutgoingView;

    open spec fn view(&self) -> OutgoingView {
        OutgoingView { language: self.language, message: self.message@ }
    }
}

/// The messages of `outbox` on their way to the process of `language`.
pub open spec fn addressed(language: LspLanguage, outbox: Seq<MessageView>) -> Seq<OutgoingView> {
    outbox.map_values(|message: MessageView| OutgoingView { language, message })
}

/// The messages that wait in `channels`: those of the first channel, then
/// those of the next, each channel's oldest first.
pub open spec fn waiting(channels: Seq<ChannelView>) -> Seq<OutgoingView>
    decreases channels.len(),
{
    if channels.len() == 0 {
        Seq::empty()
    } else {
        waiting(channels.drop_last()) + addressed(
            channels.last().language,
            channels.last().outbox,
        )
    }
}

/// What the failure of a channel is, as plain mathematical values.
pub struct ChannelFailureView {
    pub language: LspLanguage,
    pub reason: Seq<char>,
}

/// The failure of the channel of a language, and why it failed.
#[derive(Debug, PartialEq, Eq)]
pub struct ChannelFailure {
    pub language: LspLanguage,
    pub reason: String,
}

impl View for ChannelFailure {
    type V = ChannelFailureView;

    open spec fn view(&self) -> ChannelFailureView {
        ChannelFailureView { language: self.language, reason: self.reason@ }
    }
}

/// The failures of those of `channels` that have failed, in the order of
/// the channels.
pub open spec fn failures_of(channels: Seq<ChannelView>) -> Seq<ChannelFailureView>
    decreases channels.len(),
{
    if channels.len() == 0 {
        Seq::empty()
    } else {
        match channels.last().failure {
            Some(reason) => failures_of(channels.drop_last()).push(
                ChannelFailureView { language: channels.last().language, reason },
            ),
            None => failures_of(channels.drop_last()),
        }
    }
}

/// `channels` with nothing waiting in them.
pub open spec fn emptied(channels: Seq<ChannelView>) -> Seq<ChannelView> {
    channels.map_values(|channel: ChannelView| ChannelView { outbox: Seq::empty(), ..channel })
}

/// `channels` after each was asked to shut down.
pub open spec fn shut_down(channels: Seq<ChannelView>) -> Seq<ChannelView> {
    channels.map_values(|channel: ChannelView| channel.after_shutdown())
}

/// The channels after the process of `language` has acknowledged its
/// initialization and the documents at `paths` were announced to it; the
/// same channels where the language has none.
pub open spec fn after_initialized(
    channels: Seq<ChannelView>,
    language: LspLanguage,
    paths: Seq<Seq<char>>,
) -> Seq<ChannelView> {
    let index = channel_index(channels, language);
    if index < channels.len() {
        channels.update(
            index,
            (ChannelView { initialized: true, ..channels[index] }).after_opening(paths),
        )
    } else {
        channels
    }
}

/// The channels after the connection to the process of `language` has
/// failed for `reason`; the same channels where the language has none.
pub open spec fn after_failure(
    channels: Seq<ChannelView>,
    language: LspLanguage,
    reason: Seq<char>,
) -> Seq<ChannelView> {
    let index = channel_index(channels, language);
    if index < channels.len() {
        channels.update(index, ChannelView { failure: Some(reason), ..channels[index] })
    } else {
        channels
    }
}

/// Opening a channel's documents keeps its language and its failure.
pub proof fn lemma_after_opening_keeps(channel: ChannelView, paths: Seq<Seq<char>>)
    ensures
        channel.after_opening(paths).language == channel.language,
        channel.after_opening(paths).failure == channel.failure,
        channel.after_opening(paths).initialized == channel.initialized,
    decreases paths.len(),
{
    if paths.len() > 0 {
        lemma_after_opening_keeps(channel, paths.drop_last());
    }
}

/// A step of routing keeps the languages of the channels as they are.
pub proof fn lemma_route_step_keeps_languages(
    before: Routing,
    language: LspLanguage,
    message: MessageView,
)
    ensures
        route_step(before, language, message).channels.len() == before.channels.len(),
        forall|k: int|
            0 <= k < before.channels.len() ==> (#[trigger] route_step(
                before,
                language,
                message,
            ).channels[k]).language == before.channels[k].language,
        distinct_languages(before.channels) ==> distinct_languages(
            route_step(before, language, message).channels,
        ),
{
    lemma_indices_exist(before.channels, for_language(language));
}

/// What routing comes to where no two channels are for one language and no
/// language stands twice: each channel of a language of the file has got
/// the event once, every other channel is as it was, and there is no
/// failure exactly where none of the channels of those languages has
/// failed.
pub proof fn lemma_routed(
    channels: Seq<ChannelView>,
    languages: Seq<LspLanguage>,
    message: MessageView,
)
    requires
        distinct_languages(channels),
        languages.no_duplicates(),
    ensures
        routed(channels, languages, message).channels.len() == channels.len(),
        forall|k: int|
            0 <= k < channels.len() ==> #[trigger] routed(channels, languages, message).channels[k]
                == if languages.contains(channels[k].language) {
                channels[k].after_event(message)
            } else {
                channels[k]
            },
        routed(channels, languages, message).failures.len() == 0 <==> (forall|k: int|
            0 <= k < channels.len() && languages.contains((#[trigger] channels[k]).language)
                ==> channels[k].failure is None),
    decreases languages.len(),
{
    if languages.len() > 0 {
        let init = languages.drop_last();
        let last = languages.last();
        let before = routed(channels, init, message);
        let after = routed(channels, languages, message);
        lemma_routed(channels, init, message);
        lemma_indices_exist(before.channels, for_language(last));
        let index = channel_index(before.channels, last);
        assert(!init.contains(last)) by {
            if init.contains(last) {
                let at = choose|at: int| 0 <= at < init.len() && init[at] == last;
                assert(languages[at] == languages[languages.len() - 1]);
            }
        }
        assert forall|k: int| 0 <= k < channels.len() implies languages.contains(
            #[trigger] channels[k].language,
        ) == (init.contains(channels[k].language) || channels[k].language == last) by {
            let language = channels[k].language;
            if languages.contains(language) {
                let at = choose|at: int| 0 <= at < languages.len() && languages[at] == language;
                if at < init.len() {
                    assert(init[at] == language);
                }
            }
            if init.contains(language) {
                let at = choose|at: int| 0 <= at < init.len() && init[at] == language;
                assert(languages[at] == language);
            }
            if language == last {
                assert(languages[languages.len() - 1] == language);
            }
        }
        assert forall|k: int| 0 <= k < channels.len() implies (#[trigger] before.channels[k]).language
            == channels[k].language by {}
        if index < before.channels.len() {
            assert(for_language(last)(before.channels[index]));
            assert(before.channels[index] == channels[index]);
            assert forall|k: int| 0 <= k < channels.len() && k != index implies channels[k].language
                != last by {
                if k < index {
                    assert(!for_language(last)(before.channels[k]));
                } else {
                    assert(channels[index].language != channels[k].language);
                }
            }
        } else {
            assert forall|k: int| 0 <= k < channels.len() implies channels[k].language != last by {
                assert(!for_language(last)(before.channels[k]));
            }
        }
    }
}

/// Whether `spawns` says that the process of `language` has started.
pub open spec fn started(spawns: Seq<SpawnView>, language: LspLanguage) -> bool {
    first_match(spawns, spawn_of(language)) matches Some(outcome) && outcome.failure is None
}

/// Whether `spawns` says that the process of `language` did not start.
pub open spec fn start_failed(spawns: Seq<SpawnView>, language: LspLanguage) -> bool {
    first_match(spawns, spawn_of(language)) matches Some(outcome) && outcome.failure is Some
}

/// Whether opening a file fails for `language`: its channel is
/// initialized and has failed, or it has no channel and its process did not
/// start.
pub open spec fn open_fails(
    channels: Seq<ChannelView>,
    spawns: Seq<SpawnView>,
    language: LspLanguage,
) -> bool {
    let index = channel_index(channels, language);
    if index < channels.len() {
        channels[index].initialized && channels[index].failure is Some
    } else {
        start_failed(spawns, language)
    }
}

/// What opening a file comes to where no two channels are for one language
/// and no language stands twice. The channels that were there stay in
/// their places: each one of a language of the file that is initialized
/// has got the news once, every other one is as it was. Behind them stands
/// one new channel for each language of the file that had none and whose
/// process has started, and no other. There is no failure exactly where
/// opening fails for no language of the file.
pub proof fn lemma_opened(
    channels: Seq<ChannelView>,
    languages: Seq<LspLanguage>,
    path: Seq<char>,
    spawns: Seq<SpawnView>,
)
    requires
        distinct_languages(channels),
        languages.no_duplicates(),
    ensures
        distinct_languages(opened(channels, languages, path, spawns).channels),
        channels.len() <= opened(channels, languages, path, spawns).channels.len(),
        forall|k: int|
            0 <= k < channels.len() ==> #[trigger] opened(
                channels,
                languages,
                path,
                spawns,
            ).channels[k] == if languages.contains(channels[k].language)
                && channels[k].initialized {
                channels[k].after_event(MessageView::DocumentDidOpen(path))
            } else {
                channels[k]
            },
        forall|k: int|
            channels.len() <= k < opened(channels, languages, path, spawns).channels.len() ==> {
                let channel = #[trigger] opened(channels, languages, path, spawns).channels[k];
                &&& channel == ChannelView::spawned(channel.language)
                &&& languages.contains(channel.language)
                &&& started(spawns, channel.language)
                &&& channel_index(channels, channel.language) == channels.len()
            },
        forall|i: int|
            0 <= i < languages.len() && channel_index(channels, #[trigger] languages[i])
                == channels.len() && started(spawns, languages[i]) ==> channel_index(
                opened(channels, languages, path, spawns).channels,
                languages[i],
            ) < opened(channels, languages, path, spawns).channels.len(),
        opened(channels, languages, path, spawns).failures.len() == 0 <==> (forall|i: int|
            0 <= i < languages.len() ==> !open_fails(channels, spawns, #[trigger] languages[i])),
    decreases languages.len(),
{
    let after = opened(channels, languages, path, spawns);
    if languages.len() > 0 {
        let init = languages.drop_last();
        let last = languages.last();
        let before = opened(channels, init, path, spawns);
        lemma_opened(channels, init, path, spawns);
        lemma_open_step_keeps_distinct(before, last, path, spawns);
        lemma_indices_exist(before.channels, for_language(last));
        lemma_indices_exist(channels, for_language(last));
        let index = channel_index(before.channels, last);
        let old_index = channel_index(channels, last);
        assert(!init.contains(last)) by {
            if init.contains(last) {
                let at = choose|at: int| 0 <= at < init.len() && init[at] == last;
                assert(languages[at] == languages[languages.len() - 1]);
            }
        }
        assert forall|language: LspLanguage|
            languages.contains(language) == (init.contains(language) || language == last) by {
            if languages.contains(language) {
                let at = choose|at: int| 0 <= at < languages.len() && languages[at] == language;
                if at < init.len() {
                    assert(init[at] == language);
                }
            }
            if init.contains(language) {
                let at = choose|at: int| 0 <= at < init.len() && init[at] == language;
                assert(languages[at] == language);
            }
            if language == last {
                assert(languages[languages.len() - 1] == language);
            }
        }
        // The channel of the last language is where it was among the first channels.
        assert forall|k: int| 0 <= k < channels.len() implies (#[trigger] before.channels[k]).language
            == channels[k].language by {}
        assert forall|k: int| channels.len() <= k < before.channels.len() implies !for_language(
            last,
        )(#[trigger] before.channels[k]) by {
            assert(init.contains(before.channels[k].language));
        }
        if old_index < channels.len() {
            assert(for_language(last)(channels[old_index]));
            assert forall|j: int| 0 <= j < old_index implies !for_language(last)(
                #[trigger] before.channels[j],
            ) by {
                assert(!for_language(last)(channels[j]));
            }
            assert(for_language(last)(before.channels[old_index]));
            lemma_first_index(before.channels, for_language(last), old_index);
            assert(index == old_index);
            assert(before.channels[index] == channels[index]);
            assert forall|k: int| 0 <= k < channels.len() && k != index implies channels[k].language
                != last by {
                if k < index {
                    assert(!for_language(last)(channels[k]));
                } else {
                    assert(channels[index].language != channels[k].language);
                }
            }
        } else {
            assert forall|j: int| 0 <= j < before.channels.len() implies !for_language(last)(
                #[trigger] before.channels[j],
            ) by {
                if j < channels.len() {
                    assert(!for_language(last)(channels[j]));
                }
            }
            lemma_first_index(before.channels, for_language(last), before.channels.len() as int);
            assert(index == before.channels.len());
            assert forall|k: int| 0 <= k < channels.len() implies channels[k].language != last by {
                assert(!for_language(last)(channels[k]));
            }
        }
        // Every language that gained a channel before still has it.
        assert forall|i: int|
            0 <= i < languages.len() && channel_index(channels, #[trigger] languages[i])
                == channels.len() && started(spawns, languages[i]) implies channel_index(
            after.channels,
            languages[i],
        ) < after.channels.len() by {
            let language = languages[i];
            lemma_indices_exist(after.channels, for_language(language));
            if i < init.len() {
                assert(init[i] == language);
                lemma_indices_exist(before.channels, for_language(language));
                let at = channel_index(before.channels, language);
                assert(for_language(language)(before.channels[at]));
                assert(after.channels[at].language == language) by {
                    lemma_route_step_keeps_languages(
                        before,
                        last,
                        MessageView::DocumentDidOpen(path),
                    );
                }
                if channel_index(after.channels, language) == after.channels.len() {
                    assert(!for_language(language)(after.channels[at]));
                }
            } else {
                let at = before.channels.len() as int;
                assert(after.channels[at] == ChannelView::spawned(language));
                if channel_index(after.channels, language) == after.channels.len() {
                    assert(!for_language(language)(after.channels[at]));
                }
            }
        }
        assert forall|i: int| 0 <= i < init.len() implies open_fails(
            channels,
            spawns,
            #[trigger] languages[i],
        ) == open_fails(channels, spawns, init[i]) by {}
        assert(languages[languages.len() - 1] == last);
        if (forall|i: int|
            0 <= i < languages.len() ==> !open_fails(channels, spawns, #[trigger] languages[i])) {
            assert forall|i: int| 0 <= i < init.len() implies !open_fails(
                channels,
                spawns,
                #[trigger] init[i],
            ) by {
                assert(!open_fails(channels, spawns, languages[i]));
            }
            assert(!open_fails(channels, spawns, languages[languages.len() - 1]));
        }
    }
}

/// A step of opening keeps the languages of the channels distinct.
pub proof fn lemma_open_step_keeps_distinct(
    before: Routing,
    language: LspLanguage,
    path: Seq<char>,
    spawns: Seq<SpawnView>,
)
    requires
        distinct_languages(before.channels),
    ensures
        distinct_languages(open_step(before, language, path, spawns).channels),
{
    lemma_indices_exist(before.channels, for_language(language));
    lemma_route_step_keeps_languages(before, language, MessageView::DocumentDidOpen(path));
    let index = channel_index(before.channels, language);
    if index == before.channels.len() {
        let after = before.channels.push(ChannelView::spawned(language));
        assert forall|i: int, j: int| 0 <= i < j < after.len() implies (#[trigger] after[i]).language
            != (#[trigger] after[j]).language by {
            if j == before.channels.len() {
                assert(!for_language(language)(before.channels[i]));
            }
        }
    }
}

/// Owns the channels to the tool processes and routes to them what
/// happens to files.
#[derive(Debug)]
pub struct LspManager {
    registry: LanguageRegistry,
    lsp_server_process_channels: Vec<LspServerProcessChannel>,
}

impl View for LspManager {
    type V = ManagerView;

    closed spec fn view(&self) -> ManagerView {
        ManagerView {
            rules: self.registry@,
            channels: self.lsp_server_process_channels@.map_values(
                |c: LspServerProcessChannel| c@,
            ),
        }
    }
}

impl LspManager {
    /// Whether the manager holds at most one channel for each language.
    pub open spec fn wf(&self) -> bool {
        distinct_languages(self@.channels)
    }

    /// A manager without channels that finds the languages of a file in
    /// `registry`.
    pub fn new(registry: LanguageRegistry) -> (res: LspManager)
        ensures
            res@ == (ManagerView { rules: registry@, channels: Seq::empty() }),
            res.wf(),
    {
        let res = LspManager { registry, lsp_server_process_channels: Vec::new() };
        assert(res@.channels =~= Seq::empty());
        res
    }

    /// The place of the channel of `language`, if it has one.
    pub fn find_channel(&self, language: LspLanguage) -> (res: Option<usize>)
        ensures
            match res {
                Some(index) => index < self@.channels.len() && index == channel_index(
                    self@.channels,
                    language,
                ),
                None => channel_index(self@.channels, language) == self@.channels.len(),
            },
    {
        let mut i: usize = 0;
        while i < self.lsp_server_process_channels.len()
            invariant
                i <= self.lsp_server_process_channels.len(),
                forall|k: int| 0 <= k < i ==> !for_language(language)(#[trigger] self@.channels[k]),
            decreases self.lsp_server_process_channels.len() - i,
        {
            if self.lsp_server_process_channels[i].language() == language {
                proof {
                    lemma_first_index(self@.channels, for_language(language), i as int);
                }
                return Some(i);
            }
            i = i + 1;
        }
        proof {
            lemma_first_index(self@.channels, for_language(language), i as int);
        }
        None
    }

    /// Sends `message` as an event to the channel of every language of
    /// the file at `path`, one after the other, and gathers the outcomes
    /// under the label `error`: a failure of one channel does not keep the
    /// event from the others.
    pub fn invoke_channels(
        &mut self,
        path: &CanonicalizedPath,
        error: &str,
        message: &ChannelMessage,
    ) -> (res: Result<(), AggregatedFailure>)
        ensures
            is_invocation(old(self)@, path@, error@, message@, final(self)@, res),
            old(self).wf() ==> final(self).wf(),
    {
        let languages = self.registry.get_languages(path);
        let mut results: Vec<Result<(), String>> = Vec::new();
        let mut i: usize = 0;
        while i < languages.len()
            invariant
                i <= languages.len(),
                self@.rules == old(self)@.rules,
                (Routing { channels: self@.channels, failures: reasons_of(results@) }) == routed(
                    old(self)@.channels,
                    languages@.take(i as int),
                    message@,
                ),
                old(self).wf() ==> self.wf(),
            decreases languages.len() - i,
        {
            let ghost before = Routing { channels: self@.channels, failures: reasons_of(results@) };
            let ghost earlier = results@;
            proof {
                let longer = languages@.take(i as int + 1);
                assert(longer.drop_last() =~= languages@.take(i as int));
                assert(longer.last() == languages@[i as int]);
                lemma_route_step_keeps_languages(before, languages@[i as int], message@);
            }
            match self.find_channel(languages[i]) {
                Some(index) => {
                    let outcome = self.lsp_server_process_channels[index].send(message.clone());
                    results.push(outcome);
                    proof {
                        assert(results@.drop_last() =~= earlier);
                        assert(self@.channels =~= before.channels.update(
                            index as int,
                            before.channels[index as int].after_event(message@),
                        ));
                    }
                },
                None => {},
            }
            i = i + 1;
        }
        assert(languages@.take(i as int) =~= languages@);
        consolidate_errors(error, results)
    }

    /// Asks the processes of the file's languages for completions.
    pub fn request_completion(&mut self, params: RequestParams) -> (res: Result<
        (),
        AggregatedFailure,
    >)
        ensures
            is_invocation(
                old(self)@,
                params@.path,
                "Failed to request completion"@,
                MessageView::RequestCompletion(params@),
                final(self)@,
                res,
            ),
            old(self).wf() ==> final(self).wf(),
    {
        let path = params.path.clone();
        self.invoke_channels(
            &path,
            "Failed to request completion",
            &ChannelMessage::RequestCompletion(params),
        )
    }

    /// Asks the processes of the file's languages what is known of the
    /// thing at a place.
    pub fn request_hover(&mut self, params: RequestParams) -> (res: Result<(), AggregatedFailure>)
        ensures
            is_invocation(
                old(self)@,
                params@.path,
                "Failed to request hover"@,
                MessageView::RequestHover(params@),
                final(self)@,
                res,
            ),
            old(self).wf() ==> final(self).wf(),
    {
        let path = params.path.clone();
        self.invoke_channels(
            &path,
            "Failed to request hover",
            &ChannelMessage::RequestHover(params),
        )
    }

    /// Asks the processes of the file's languages where the thing at a
    /// place is defined.
    pub fn request_definition(&mut self, params: RequestParams) -> (res: Result<
        (),
        AggregatedFailure,
    >)
        ensures
            is_invocation(
                old(self)@,
                params@.path,
                "Failed to go to definition"@,
                MessageView::RequestDefinition(params@),
                final(self)@,
                res,
            ),
            old(self).wf() ==> final(self).wf(),
    {
        let path = params.path.clone();
        self.invoke_channels(
            &path,
            "Failed to go to definition",
            &ChannelMessage::RequestDefinition(params),
        )
    }

    /// Asks the processes of the file's languages where the thing at a
    /// place is used.
    pub fn request_references(&mut self, params: RequestParams) -> (res: Result<
        (),
        AggregatedFailure,
    >)
        ensures
            is_invocation(
                old(self)@,
                params@.path,
                "Failed to find references"@,
                MessageView::RequestReferences(params@),
                final(self)@,
                res,
            ),
            old(self).wf() ==> final(self).wf(),
    {
        let path = params.path.clone();
        self.invoke_channels(
            &path,
            "Failed to find references",
            &ChannelMessage::RequestReferences(params),
        )
    }

    /// Tells the processes of the file's languages that the document at
    /// `path` has the content `content` now.
    pub fn document_did_change(&mut self, path: CanonicalizedPath, content: String) -> (res: Result<
        (),
        AggregatedFailure,
    >)
        ensures
            is_invocation(
                old(self)@,
                path@,
                "Failed to notify document did change"@,
                MessageView::DocumentDidChange(path@, content@),
                final(self)@,
                res,
            ),
            old(self).wf() ==> final(self).wf(),
    {
        let target = path.clone();
        self.invoke_channels(
            &target,
            "Failed to notify document did change",
            &ChannelMessage::DocumentDidChange(path, content),
        )
    }

    /// Tells the processes of the file's languages that the document at
    /// `path` was saved.
    pub fn document_did_save(&mut self, path: CanonicalizedPath) -> (res: Result<
        (),
        AggregatedFailure,
    >)
        ensures
            is_invocation(
                old(self)@,
                path@,
                "Failed to notify document did save"@,
                MessageView::DocumentDidSave(path@),
                final(self)@,
                res,
            ),
            old(self).wf() ==> final(self).wf(),
    {
        let target = path.clone();
        self.invoke_channels(
            &target,
            "Failed to notify document did save",
            &ChannelMessage::DocumentDidSave(path),
        )
    }

    /// The languages of the file at `path` that have no channel yet: the
    /// ones whose processes are to be started before the file is opened.
    pub fn unspawned_languages(&self, path: &CanonicalizedPath) -> (res: Vec<LspLanguage>)
        ensures
            res@ == unspawned(self@.channels, languages_of(self@.rules, path@)),
    {
        let languages = self.registry.get_languages(path);
        let mut missing: Vec<LspLanguage> = Vec::new();
        let mut i: usize = 0;
        while i < languages.len()
            invariant
                i <= languages.len(),
                missing@ == unspawned(self@.channels, languages@.take(i as int)),
            decreases languages.len() - i,
        {
            proof {
                let longer = languages@.take(i as int + 1);
                assert(longer.drop_last() =~= languages@.take(i as int));
                assert(longer.last() == languages@[i as int]);
            }
            if self.find_channel(languages[i]).is_none() {
                missing.push(languages[i]);
            }
            i = i + 1;
        }
        assert(languages@.take(i as int) =~= languages@);
        missing
    }

    /// The place in `spawned` of the first outcome for `language`, if it
    /// holds one.
    pub fn find_spawn(spawned: &Vec<SpawnOutcome>, language: LspLanguage) -> (res: Option<usize>)
        ensures
            match res {
                Some(index) => index < spawned@.len() && first_match(
                    spawned@.map_values(|o: SpawnOutcome| o@),
                    spawn_of(language),
                ) == Some(spawned@[index as int]@),
                None => first_match(
                    spawned@.map_values(|o: SpawnOutcome| o@),
                    spawn_of(language),
                ) is None,
            },
    {
        let ghost views = spawned@.map_values(|o: SpawnOutcome| o@);
        let mut i: usize = 0;
        while i < spawned.len()
            invariant
                i <= spawned.len(),
                views == spawned@.map_values(|o: SpawnOutcome| o@),
                forall|k: int| 0 <= k < i ==> !spawn_of(language)(#[trigger] views[k]),
            decreases spawned.len() - i,
        {
            if spawned[i].language == language {
                proof {
                    lemma_first_index(views, spawn_of(language), i as int);
                }
                return Some(i);
            }
            i = i + 1;
        }
        proof {
            lemma_first_index(views, spawn_of(language), i as int);
        }
        None
    }

    /// Opens the file at `path` for each of its languages, which is one
    /// of these:
    /// 1. a channel whose process is initialized is told that the
    ///    document is open;
    /// 2. a channel whose process is not initialized yet is left alone;
    /// 3. a language without a channel gets one, with the request to
    ///    initialize its process, where `spawned` says that the process
    ///    has started;
    /// 4. a language without a channel gets none where `spawned` says that
    ///    the start failed, and the reason is reported, so that the next
    ///    call tries again;
    /// 5. a language without a channel of which `spawned` says nothing is
    ///    passed over.
    ///
    /// A failure for one language does not keep the others from their
    /// turn. The outcomes are gathered under one label.
    pub fn open_file(&mut self, path: CanonicalizedPath, spawned: Vec<SpawnOutcome>) -> (res:
        Result<(), AggregatedFailure>)
        ensures
            final(self)@ == (ManagerView {
                rules: old(self)@.rules,
                channels: opened(
                    old(self)@.channels,
                    languages_of(old(self)@.rules, path@),
                    path@,
                    spawned@.map_values(|o: SpawnOutcome| o@),
                ).channels,
            }),
            is_outcome(
                res,
                consolidated(
                    "Failed to start language server"@,
                    opened(
                        old(self)@.channels,
                        languages_of(old(self)@.rules, path@),
                        path@,
                        spawned@.map_values(|o: SpawnOutcome| o@),
                    ).failures,
                ),
            ),
            old(self).wf() ==> final(self).wf(),
    {
        let ghost spawns = spawned@.map_values(|o: SpawnOutcome| o@);
        let languages = self.registry.get_languages(&path);
        let mut results: Vec<Result<(), String>> = Vec::new();
        let mut i: usize = 0;
        while i < languages.len()
            invariant
                i <= languages.len(),
                self@.rules == old(self)@.rules,
                spawns == spawned@.map_values(|o: SpawnOutcome| o@),
                (Routing { channels: self@.channels, failures: reasons_of(results@) }) == opened(
                    old(self)@.channels,
                    languages@.take(i as int),
                    path@,
                    spawns,
                ),
                old(self).wf() ==> self.wf(),
            decreases languages.len() - i,
        {
            let ghost before = Routing { channels: self@.channels, failures: reasons_of(results@) };
            let ghost earlier = results@;
            let language = languages[i];
            proof {
                let longer = languages@.take(i as int + 1);
                assert(longer.drop_last() =~= languages@.take(i as int));
                assert(longer.last() == language);
                if distinct_languages(before.channels) {
                    lemma_open_step_keeps_distinct(before, language, path@, spawns);
                }
            }
            match self.find_channel(language) {
                Some(index) => {
                    if self.lsp_server_process_channels[index].is_initialized() {
                        let outcome = self.lsp_server_process_channels[index].document_did_open(
                            path.clone(),
                        );
                        results.push(outcome);
                        proof {
                            assert(results@.drop_last() =~= earlier);
                            assert(self@.channels =~= before.channels.update(
                                index as int,
                                before.channels[index as int].after_event(
                                    MessageView::DocumentDidOpen(path@),
                                ),
                            ));
                        }
                    }
                },
                None => match LspManager::find_spawn(&spawned, language) {
                    Some(at) => match &spawned[at].result {
                        Ok(_) => {
                            self.lsp_server_process_channels.push(
                                LspServerProcessChannel::spawn(language),
                            );
                            proof {
                                assert(self@.channels =~= before.channels.push(
                                    ChannelView::spawned(language),
                                ));
                            }
                        },
                        Err(reason) => {
                            results.push(Err(reason.clone()));
                            proof {
                                assert(results@.drop_last() =~= earlier);
                            }
                        },
                    },
                    None => {},
                },
            }
            i = i + 1;
        }
        assert(languages@.take(i as int) =~= languages@);
        consolidate_errors("Failed to start language server", results)
    }

    /// Takes note that the process of `language` has acknowledged its
    /// initialization, and announces to it the documents at
    /// `opened_documents`, which were opened while it was starting. Without
    /// a channel for the language nothing happens.
    pub fn initialized(&mut self, language: LspLanguage, opened_documents: Vec<CanonicalizedPath>)
        ensures
            final(self)@ == (ManagerView {
                rules: old(self)@.rules,
                channels: after_initialized(
                    old(self)@.channels,
                    language,
                    opened_documents@.map_values(|p: CanonicalizedPath| p@),
                ),
            }),
            old(self).wf() ==> final(self).wf(),
    {
        let ghost before = self@.channels;
        match self.find_channel(language) {
            Some(index) => {
                self.lsp_server_process_channels[index].initialized();
                let _ = self.lsp_server_process_channels[index].documents_did_open(
                    opened_documents,
                );
                proof {
                    let paths = opened_documents@.map_values(|p: CanonicalizedPath| p@);
                    let ready = ChannelView { initialized: true, ..before[index as int] };
                    lemma_after_opening_keeps(ready, paths);
                    assert(self@.channels =~= before.update(
                        index as int,
                        ready.after_opening(paths),
                    ));
                }
            },
            None => {
                assert(self@.channels =~= before);
            },
        }
    }

    /// Takes note that the connection to the process of `language` has
    /// failed for `reason`: what is sent to its channel from now on fails
    /// with that reason. Without a channel for the language nothing
    /// happens.
    pub fn channel_failed(&mut self, language: LspLanguage, reason: &str)
        ensures
            final(self)@ == (ManagerView {
                rules: old(self)@.rules,
                channels: after_failure(old(self)@.channels, language, reason@),
            }),
            old(self).wf() ==> final(self).wf(),
    {
        let ghost before = self@.channels;
        match self.find_channel(language) {
            Some(index) => {
                self.lsp_server_process_channels[index].fail(reason.to_owned());
                proof {
                    assert(self@.channels =~= before.update(
                        index as int,
                        ChannelView { failure: Some(reason@), ..before[index as int] },
                    ));
                }
            },
            None => {
                assert(self@.channels =~= before);
            },
        }
    }

    /// The number of channels.
    pub fn channel_count(&self) -> (res: usize)
        ensures
            res == self@.channels.len(),
    {
        self.lsp_server_process_channels.len()
    }

    /// Hands over the messages that wait in the channels, channel by
    /// channel in the order in which the channels were spawned, and leaves
    /// the channels with none.
    pub fn take_outgoing(&mut self) -> (res: Vec<Outgoing>)
        ensures
            res@.map_values(|o: Outgoing| o@) == waiting(old(self)@.channels),
            final(self)@ == (ManagerView {
                rules: old(self)@.rules,
                channels: emptied(old(self)@.channels),
            }),
            old(self).wf() ==> final(self).wf(),
    {
        let ghost before = self@.channels;
        let count = self.lsp_server_process_channels.len();
        let mut outgoing: Vec<Outgoing> = Vec::new();
        let mut i: usize = 0;
        while i < count
            invariant
                count == before.len(),
                i <= count,
                self@.rules == old(self)@.rules,
                self@.channels.len() == count,
                forall|k: int| 0 <= k < i ==> #[trigger] self@.channels[k] == emptied(before)[k],
                forall|k: int| i <= k < count ==> #[trigger] self@.channels[k] == before[k],
                outgoing@.map_values(|o: Outgoing| o@) == waiting(before.take(i as int)),
            decreases count - i,
        {
            let ghost current = self@.channels;
            let ghost so_far = outgoing@.map_values(|o: Outgoing| o@);
            let language = self.lsp_server_process_channels[i].language();
            let mut messages = self.lsp_server_process_channels[i].take_messages();
            proof {
                assert(self@.channels =~= current.update(
                    i as int,
                    ChannelView { outbox: Seq::empty(), ..current[i as int] },
                ));
            }
            let ghost taken = messages@.map_values(|m: ChannelMessage| m@);
            let mut j: usize = 0;
            while j < messages.len()
                invariant
                    j <= messages.len(),
                    taken == messages@.map_values(|m: ChannelMessage| m@),
                    outgoing@.map_values(|o: Outgoing| o@) == so_far + addressed(
                        language,
                        taken.take(j as int),
                    ),
                decreases messages.len() - j,
            {
                let ghost queued = outgoing@.map_values(|o: Outgoing| o@);
                let message = messages[j].clone();
                outgoing.push(Outgoing { language, message });
                proof {
                    assert(outgoing@.map_values(|o: Outgoing| o@) =~= queued.push(
                        OutgoingView { language, message: taken[j as int] },
                    ));
                    assert(addressed(language, taken.take(j as int + 1)) =~= addressed(
                        language,
                        taken.take(j as int),
                    ).push(OutgoingView { language, message: taken[j as int] }));
                    assert(queued.push(OutgoingView { language, message: taken[j as int] })
                        =~= so_far + addressed(language, taken.take(j as int + 1)));
                }
                j = j + 1;
            }
            proof {
                assert(taken.take(j as int) =~= taken);
                let longer = before.take(i as int + 1);
                assert(longer.drop_last() =~= before.take(i as int));
                assert(longer.last() == before[i as int]);
            }
            i = i + 1;
        }
        proof {
            assert(before.take(i as int) =~= before);
            assert(self@.channels =~= emptied(before));
        }
        outgoing
    }

    /// Takes note that `outgoing` could not be passed on to its process,
    /// for `reason`: the channel of its language has failed from now on, as
    /// with `channel_failed`, and the failure to report is returned, under
    /// the label of the call that sends such a message.
    pub fn delivery_failed(&mut self, outgoing: &Outgoing, reason: &str) -> (res:
        AggregatedFailure)
        ensures
            final(self)@ == (ManagerView {
                rules: old(self)@.rules,
                channels: after_failure(old(self)@.channels, outgoing.language, reason@),
            }),
            res@ == (FailureView { label: label_of(outgoing.message@), reasons: seq![reason@] }),
            old(self).wf() ==> final(self).wf(),
    {
        self.channel_failed(outgoing.language, reason);
        let mut reasons: Vec<String> = Vec::new();
        reasons.push(reason.to_owned());
        let res = AggregatedFailure { label: failure_label(&outgoing.message), reasons };
        assert(res@.reasons =~= seq![reason@]);
        res
    }

    /// Asks every channel to shut down, hands over what waits in the
    /// channels with those requests at the end of each, and lets go of the
    /// channels. A channel that has failed cannot take the request: it is
    /// passed over, and its failure is handed back with the messages, for
    /// the caller to take note of.
    pub fn shutdown(&mut self) -> (res: (Vec<Outgoing>, Vec<ChannelFailure>))
        ensures
            res.0@.map_values(|o: Outgoing| o@) == waiting(shut_down(old(self)@.channels)),
            res.1@.map_values(|f: ChannelFailure| f@) == failures_of(old(self)@.channels),
            final(self)@ == (ManagerView { rules: old(self)@.rules, channels: Seq::empty() }),
            final(self).wf(),
    {
        let ghost before = self@.channels;
        let count = self.lsp_server_process_channels.len();
        let mut failures: Vec<ChannelFailure> = Vec::new();
        let mut i: usize = 0;
        while i < count
            invariant
                count == before.len(),
                i <= count,
                self@.rules == old(self)@.rules,
                self@.channels.len() == count,
                forall|k: int| 0 <= k < i ==> #[trigger] self@.channels[k] == shut_down(before)[k],
                forall|k: int| i <= k < count ==> #[trigger] self@.channels[k] == before[k],
                failures@.map_values(|f: ChannelFailure| f@) == failures_of(before.take(i as int)),
            decreases count - i,
        {
            let ghost current = self@.channels;
            let ghost noted = failures@.map_values(|f: ChannelFailure| f@);
            let language = self.lsp_server_process_channels[i].language();
            let outcome = self.lsp_server_process_channels[i].shutdown();
            proof {
                assert(self@.channels =~= current.update(
                    i as int,
                    current[i as int].after_shutdown(),
                ));
                let longer = before.take(i as int + 1);
                assert(longer.drop_last() =~= before.take(i as int));
                assert(longer.last() == before[i as int]);
            }
            match outcome {
                Ok(_) => {},
                Err(reason) => {
                    failures.push(ChannelFailure { language, reason });
                    proof {
                        assert(failures@.map_values(|f: ChannelFailure| f@) =~= noted.push(
                            ChannelFailureView { language, reason: reason@ },
                        ));
                    }
                },
            }
            i = i + 1;
        }
        assert(before.take(i as int) =~= before);
        assert(self@.channels =~= shut_down(before));
        let outgoing = self.take_outgoing();
        self.lsp_server_process_channels.clear();
        assert(self@.channels =~= Seq::empty());
        (outgoing, failures)
    }
}

} // verus!
