//! The assistant's sidecar: which conversation a turn continues, what the model is
//! told, and what becomes of each line from the server.

use std::collections::{HashMap, HashSet};

use vstd::prelude::*;

use crate::agent::{emit_say, ActionKind, InMsg, OutLine, QueryResult, TurnRequest, SYSTEM_PROMPT};
use crate::query::Pending;
use crate::text::{int_text, push_int, same_text, trim, trimmed};

verus! {

broadcast use vstd::std_specs::hash::group_hash_axioms;

/// How many rounds of tool calls one turn may take.
pub const MAX_TURNS: usize = 14;

/// What the model is told in one turn.
#[derive(Clone, Debug, PartialEq, Eq)]
pub struct TurnPlan {
    /// How to behave; only where the conversation is new.
    pub system: Option<&'static str>,
    pub user_prompt: String,
    pub max_turns: usize,
}

/// What the player says, with where they stand in front, if that is known.
pub open spec fn prompt_for(prompt: Seq<char>, pos: Option<[i32; 3]>) -> Seq<char> {
    match pos {
        Some(p) => "[Context: the player is standing at block coordinates x="@ + int_text(
            p@[0] as int,
        ) + ", y="@ + int_text(p@[1] as int) + ", z="@ + int_text(p@[2] as int)
            + ". When they say \"here\" or ask you to build, place blocks at or near these coordinates.]\n\n"@
            + prompt,
        None => prompt,
    }
}

/// The sidecar's conversations, one a session, and the questions that wait.
pub struct Sidecar<H> {
    pub histories: HashMap<u64, H>,
    /// The sessions that began a turn and were not evicted since.
    pub live: HashSet<u64>,
    pub pending: Pending,
}

/// The conversations, as contracts speak of them.
#[verifier::ext_equal]
pub ghost struct Talks<H> {
    pub histories: Map<u64, H>,
    /// The sessions that began a turn and were not evicted since.
    pub live: Set<u64>,
}

impl<H> Talks<H> {
    /// The conversations once a session began a turn.
    pub open spec fn begun(self, session: u64) -> Talks<H> {
        Talks { live: self.live.insert(session), ..self }
    }

    /// The conversations once a session was evicted.
    pub open spec fn evicted(self, session: u64) -> Talks<H> {
        Talks { histories: self.histories.remove(session), live: self.live.remove(session) }
    }

    /// The conversations once a turn of a session ended, with the history after it
    /// where it went well. Where the session was evicted meanwhile, it stays forgotten.
    pub open spec fn ended(self, session: u64, history: Option<H>) -> Talks<H> {
        match history {
            Some(h) if self.live.contains(session) => Talks {
                histories: self.histories.insert(session, h),
                ..self
            },
            _ => self,
        }
    }
}

impl<H> View for Sidecar<H> {
    type V = Talks<H>;

    open spec fn view(&self) -> Talks<H> {
        Talks { histories: self.histories@, live: self.live@ }
    }
}

/// What becomes of a line from the server.
#[derive(Clone, Debug, PartialEq, Eq)]
pub enum Served {
    /// A turn begins.
    Begin(TurnRequest),
    /// A conversation was forgotten.
    Evicted,
    /// The answer to a question that waits.
    Deliver { request_id: u64, result: QueryResult },
    /// An answer that nobody waits for.
    Unexpected,
}

impl<H> Sidecar<H> {
    pub open spec fn wf(&self) -> bool {
        self.pending.wf()
    }

    /// No conversations and no questions yet.
    pub fn new() -> (r: Self)
        ensures
            r.wf(),
            r@.histories == Map::<u64, H>::empty(),
            r@.live == Set::<u64>::empty(),
            r.pending@ == Set::<u64>::empty(),
            r.pending.next_id == 1,
    {
        Sidecar { histories: HashMap::new(), live: HashSet::new(), pending: Pending::new() }
    }

    /// The conversation of a session, if there is one.
    pub fn history(&self, session: u64) -> (r: Option<&H>)
        ensures
            match r {
                Some(h) => self@.histories.contains_key(session) && *h == self@.histories[session],
                None => !self@.histories.contains_key(session),
            },
    {
        self.histories.get(&session)
    }

    /// Begins a turn: what the model is told. How to behave is only said at the start of
    /// a conversation. A turn begins as soon as its line is served, so that an eviction
    /// whose line comes later ends it.
    pub fn begin_turn(&mut self, req: TurnRequest) -> (r: TurnPlan)
        ensures
            final(self)@ == old(self)@.begun(req.session),
            final(self).pending == old(self).pending,
            r.user_prompt@ == prompt_for(req.prompt@, req.pos),
            r.max_turns == MAX_TURNS,
            match r.system {
                Some(text) => !old(self)@.histories.contains_key(req.session) && text@
                    == SYSTEM_PROMPT@,
                None => old(self)@.histories.contains_key(req.session),
            },
    {
        self.live.insert(req.session);
        let system = match self.histories.get(&req.session) {
            Some(_) => None,
            None => Some(SYSTEM_PROMPT),
        };
        let user_prompt = match req.pos {
            Some(p) => {
                let mut text = "[Context: the player is standing at block coordinates x=".to_owned();
                push_int(&mut text, p[0] as i128);
                text.append(", y=");
                push_int(&mut text, p[1] as i128);
                text.append(", z=");
                push_int(&mut text, p[2] as i128);
                text.append(
                    ". When they say \"here\" or ask you to build, place blocks at or near these coordinates.]\n\n",
                );
                text.append(req.prompt.as_str());
                text
            },
            None => req.prompt,
        };
        TurnPlan { system, user_prompt, max_turns: MAX_TURNS }
    }

    /// What a turn comes to once the model is done: the line to the player, if there
    /// is anything to say. A conversation is kept only where the turn went well, and
    /// where the player is still there.
    pub fn end_turn(&mut self, session: u64, outcome: Result<(String, H), String>) -> (r: Option<
        OutLine,
    >)
        ensures
            final(self).pending == old(self).pending,
            match outcome {
                Ok((text, history)) => {
                    &&& final(self)@ == old(self)@.ended(session, Some(history))
                    &&& match r {
                        Some(line) => says(line, session, trimmed(text@)) && trimmed(text@).len()
                            > 0,
                        None => trimmed(text@).len() == 0,
                    }
                },
                Err(why) => {
                    &&& final(self)@ == old(self)@.ended(session, None)
                    &&& r matches Some(line)
                    &&& says(line, session, "§csorry, something went wrong: "@ + why@)
                },
            },
    {
        match outcome {
            Ok((text, history)) => {
                if self.live.contains(&session) {
                    self.histories.insert(session, history);
                }
                let said = trim(text.as_str());
                let silent = same_text(said.as_str(), "");
                proof {
                    reveal_strlit("");
                    if said@.len() == 0 {
                        assert(said@ =~= ""@);
                    }
                }
                if silent {
                    None
                } else {
                    Some(emit_say(session, said))
                }
            },
            Err(why) => {
                let mut text = "§csorry, something went wrong: ".to_owned();
                text.append(why.as_str());
                Some(emit_say(session, text))
            },
        }
    }

    /// Takes in one line from the server.
    pub fn serve(&mut self, msg: InMsg) -> (r: Served)
        requires
            old(self).wf(),
        ensures
            final(self).wf(),
            final(self)@ == (match msg {
                InMsg::Evict { session } => old(self)@.evicted(session),
                _ => old(self)@,
            }),
            final(self).pending@ == (match msg {
                InMsg::QueryResult { request_id, .. } => old(self).pending@.remove(request_id),
                _ => old(self).pending@,
            }),
            final(self).pending.next_id == old(self).pending.next_id,
            r == (match msg {
                InMsg::Turn(req) => Served::Begin(req),
                InMsg::Evict { session } => Served::Evicted,
                InMsg::QueryResult { request_id, result } => if old(self).pending@.contains(
                    request_id,
                ) {
                    Served::Deliver { request_id, result }
                } else {
                    Served::Unexpected
                },
            }),
    {
        match msg {
            InMsg::Turn(req) => Served::Begin(req),
            InMsg::Evict { session } => {
                let _forgotten = self.histories.remove(&session);
                let _ended = self.live.remove(&session);
                assert(self@ =~= old(self)@.evicted(session));
                Served::Evicted
            },
            InMsg::QueryResult { request_id, result } => {
                if self.pending.complete(request_id) {
                    Served::Deliver { request_id, result }
                } else {
                    Served::Unexpected
                }
            },
        }
    }
}

/// `line` speaks `text` to the player of `session`.
pub open spec fn says(line: OutLine, session: u64, text: Seq<char>) -> bool {
    line.session == session && (line.kind matches ActionKind::Say { text: t } && t@ == text)
}

/// What becomes of a line from the server where there is no model: a turn is echoed.
pub fn serve_offline(msg: InMsg) -> (r: Option<OutLine>)
    ensures
        match msg {
            InMsg::Turn(req) => r matches Some(line) && says(
                line,
                req.session,
                "(offline) you said: "@ + req.prompt@,
            ),
            _ => r is None,
        },
{
    match msg {
        InMsg::Turn(req) => {
            let mut text = "(offline) you said: ".to_owned();
            text.append(req.prompt.as_str());
            Some(emit_say(req.session, text))
        },
        _ => None,
    }
}

/// A player who leaves is forgotten, and nobody else is.
pub proof fn law_eviction_forgets_one_session<H>(talks: Talks<H>, session: u64, other: u64)
    requires
        other != session,
    ensures
        ({
            let after = talks.evicted(session);
            &&& !after.histories.contains_key(session)
            &&& !after.live.contains(session)
            &&& after.histories.contains_key(other) == talks.histories.contains_key(other)
            &&& talks.histories.contains_key(other) ==> after.histories[other]
                == talks.histories[other]
            &&& after.live.contains(other) == talks.live.contains(other)
        }),
{
}

/// One thing that happens to the conversations: a turn of a session begins, its
/// player leaves, or a turn ends, with the history after it where it went well.
pub ghost enum TalkEvent<H> {
    Begin(u64),
    Evict(u64),
    End(u64, Option<H>),
}

/// The conversations after these events.
pub open spec fn talks_after<H>(talks: Talks<H>, events: Seq<TalkEvent<H>>) -> Talks<H>
    decreases events.len(),
{
    if events.len() == 0 {
        talks
    } else {
        let before = talks_after(talks, events.drop_last());
        match events.last() {
            TalkEvent::Begin(session) => before.begun(session),
            TalkEvent::Evict(session) => before.evicted(session),
            TalkEvent::End(session, history) => before.ended(session, history),
        }
    }
}

/// A session that was evicted stays forgotten, whatever turns of it were still running
/// and however they end, as long as it does not begin another.
pub proof fn law_evicted_history_stays_dropped<H>(
    talks: Talks<H>,
    session: u64,
    events: Seq<TalkEvent<H>>,
)
    requires
        forall|i: int|
            0 <= i < events.len() ==> (#[trigger] events[i]) != TalkEvent::<H>::Begin(session),
    ensures
        !talks_after(talks.evicted(session), events).histories.contains_key(session),
        !talks_after(talks.evicted(session), events).live.contains(session),
    decreases events.len(),
{
    if events.len() > 0 {
        let front = events.drop_last();
        assert forall|i: int| 0 <= i < front.len() implies (#[trigger] front[i])
            != TalkEvent::<H>::Begin(session) by {
            assert(front[i] == events[i]);
        }
        assert(events.last() == events[events.len() - 1]);
        law_evicted_history_stays_dropped(talks, session, front);
    }
}

proof fn lemma_stays_live<H>(talks: Talks<H>, session: u64, events: Seq<TalkEvent<H>>)
    requires
        talks.live.contains(session),
        forall|i: int|
            0 <= i < events.len() ==> (#[trigger] events[i]) != TalkEvent::<H>::Evict(session),
    ensures
        talks_after(talks, events).live.contains(session),
    decreases events.len(),
{
    if events.len() > 0 {
        let front = events.drop_last();
        assert forall|i: int| 0 <= i < front.len() implies (#[trigger] front[i])
            != TalkEvent::<H>::Evict(session) by {
            assert(front[i] == events[i]);
        }
        assert(events.last() == events[events.len() - 1]);
        lemma_stays_live(talks, session, front);
    }
}

/// A turn that went well is remembered, so that the next one continues it, whatever
/// happened while it ran, unless its player left.
pub proof fn law_turn_is_remembered<H>(
    talks: Talks<H>,
    session: u64,
    meanwhile: Seq<TalkEvent<H>>,
    history: H,
)
    requires
        forall|i: int|
            0 <= i < meanwhile.len() ==> (#[trigger] meanwhile[i]) != TalkEvent::<H>::Evict(
                session,
            ),
    ensures
        ({
            let after = talks_after(talks.begun(session), meanwhile).ended(session, Some(history));
            after.histories.contains_key(session) && after.histories[session] == history
        }),
{
    lemma_stays_live(talks.begun(session), session, meanwhile);
}

/// Why no model could be chosen.
#[derive(Clone, Copy, PartialEq, Eq, Structural, Debug)]
pub enum BackendError {
    NoModel,
    NoKey,
}

impl BackendError {
    /// The error in words.
    pub fn message(&self) -> (r: &'static str)
        ensures
            r@ == (match self {
                BackendError::NoModel =>
                    "no model selected: set HYPERION_AI_MODEL or default_model in config.toml"@,
                BackendError::NoKey =>
                    "no config.toml at HYPERION_AI_CONFIG and ANTHROPIC_API_KEY is not set"@,
            }),
    {
        match self {
            BackendError::NoModel =>
                "no model selected: set HYPERION_AI_MODEL or default_model in config.toml",
            BackendError::NoKey =>
                "no config.toml at HYPERION_AI_CONFIG and ANTHROPIC_API_KEY is not set",
        }
    }
}

/// Where the configuration is looked for.
pub fn config_path(setting: Option<String>) -> (r: String)
    ensures
        r@ == (match setting {
            Some(path) => path@,
            None => "/config.toml"@,
        }),
{
    match setting {
        Some(path) => path,
        None => "/config.toml".to_owned(),
    }
}

/// What an optional text holds.
pub open spec fn held(s: Option<String>) -> Option<Seq<char>> {
    match s {
        Some(s) => Some(s@),
        None => None,
    }
}

/// The model that is chosen where there is a configuration: the one that is set,
/// unless that is blank, else the configured one, else the one configured for
/// chat.
pub open spec fn chosen_model(
    setting: Option<Seq<char>>,
    default_model: Option<Seq<char>>,
    chat_model: Option<Seq<char>>,
) -> Option<Seq<char>> {
    match setting {
        Some(s) if trimmed(s).len() > 0 => Some(s),
        _ => match default_model {
            Some(m) => Some(m),
            None => chat_model,
        },
    }
}

/// Chooses a model where there is a configuration.
pub fn select_model(
    setting: Option<String>,
    default_model: Option<String>,
    chat_model: Option<String>,
) -> (r: Result<String, BackendError>)
    ensures
        match chosen_model(held(setting), held(default_model), held(chat_model)) {
            Some(model) => r matches Ok(m) && m@ == model,
            None => r == Err::<String, BackendError>(BackendError::NoModel),
        },
{
    if let Some(s) = setting {
        let rest = trim(s.as_str());
        let blank = same_text(rest.as_str(), "");
        proof {
            reveal_strlit("");
            if rest@.len() == 0 {
                assert(rest@ =~= ""@);
            }
        }
        if !blank {
            return Ok(s);
        }
    }
    match default_model {
        Some(m) => Ok(m),
        None => match chat_model {
            Some(m) => Ok(m),
            None => Err(BackendError::NoModel),
        },
    }
}

/// The key and the model where there is no configuration: the model that is set, or
/// else `default_model`.
pub fn env_backend(
    key: Option<String>,
    model: Option<String>,
    default_model: String,
) -> (r: Result<(String, String), BackendError>)
    ensures
        match key {
            Some(k) => r matches Ok((given, chosen)) && given@ == k@ && chosen@ == (match model {
                Some(m) => m@,
                None => default_model@,
            }),
            None => r == Err::<(String, String), BackendError>(BackendError::NoKey),
        },
{
    match key {
        Some(k) => match model {
            Some(m) => Ok((k, m)),
            None => Ok((k, default_model)),
        },
        None => Err(BackendError::NoKey),
    }
}

/// What the player said reaches the model word for word, at the end of what it is told; where
/// the player stands comes before it, and is told only where it is known.
pub proof fn law_prompt_is_told_word_for_word(prompt: Seq<char>, p: [i32; 3])
    ensures
        prompt_for(prompt, None) == prompt,
        prompt.is_suffix_of(prompt_for(prompt, Some(p))),
        ("[Context: the player is standing at block coordinates x="@ + int_text(p@[0] as int)
            + ", y="@ + int_text(p@[1] as int) + ", z="@ + int_text(p@[2] as int) + ". "@).is_prefix_of(
            prompt_for(prompt, Some(p)),
        ),
        prompt_for(prompt, Some(p)) == prompt_for(Seq::empty(), Some(p)) + prompt,
{
    let text = prompt_for(prompt, Some(p));
    let tail =
        ". When they say \"here\" or ask you to build, place blocks at or near these coordinates.]\n\n"@;
    reveal_strlit(
        ". When they say \"here\" or ask you to build, place blocks at or near these coordinates.]\n\n",
    );
    reveal_strlit(". ");
    let head = "[Context: the player is standing at block coordinates x="@ + int_text(p@[0] as int)
        + ", y="@ + int_text(p@[1] as int) + ", z="@ + int_text(p@[2] as int);
    assert(text =~= head + tail + prompt);
    assert(prompt =~= text.skip(text.len() - prompt.len()));
    assert(". "@ =~= tail.take(2));
    assert(head + ". "@ =~= text.take((head + ". "@).len() as int));
    assert(text =~= prompt_for(Seq::empty(), Some(p)) + prompt);
}

/// A turn that begins or ends concerns its own session alone, and one that did not go well
/// leaves every conversation as it was.
pub proof fn law_turns_concern_their_session<H>(
    talks: Talks<H>,
    session: u64,
    history: Option<H>,
    other: u64,
)
    requires
        other != session,
    ensures
        talks.begun(session).histories == talks.histories,
        talks.begun(session).live.contains(session),
        talks.begun(session).live.contains(other) == talks.live.contains(other),
        talks.ended(session, history).live == talks.live,
        talks.ended(session, history).histories.contains_key(other)
            == talks.histories.contains_key(other),
        talks.ended(session, history).histories[other] == talks.histories[other],
        talks.ended(session, None) == talks,
        talks.live.contains(session) ==> (history matches Some(h) ==> talks.ended(
            session,
            history,
        ).histories.contains_key(session) && talks.ended(session, history).histories[session] == h),
        !talks.live.contains(session) ==> talks.ended(session, history) == talks,
{
}

/// A model that is set and not blank is the one that is used, whatever is configured; else
/// the configured one comes before that for chat, and only without any of them there is
/// none.
pub proof fn law_setting_comes_first(
    setting: Option<Seq<char>>,
    default_model: Option<Seq<char>>,
    chat_model: Option<Seq<char>>,
)
    ensures
        ({
            let chosen = chosen_model(setting, default_model, chat_model);
            let set = setting is Some && trimmed(setting->0).len() > 0;
            &&& set ==> chosen == setting
            &&& !set && default_model is Some ==> chosen == default_model
            &&& !set && default_model is None ==> chosen == chat_model
        }),
{
}

/// A setting is taken as it is.
pub proof fn law_setting_is_taken_as_it_is(setting: String)
    ensures
        held(Some(setting)) == Some(setting@),
        held(None) is None,
{
}

/// A line that speaks to a player names the player's session and holds just what is said, and
/// every such line does.
pub proof fn law_line_speaks_what_it_holds(
    line: OutLine,
    session: u64,
    said: String,
    text: Seq<char>,
)
    ensures
        says(OutLine { session, kind: ActionKind::Say { text: said } }, session, said@),
        says(line, session, text) ==> line.session == session && (line.kind matches ActionKind::Say {
            text: held,
        } && held@ == text),
{
}

} // verus!
