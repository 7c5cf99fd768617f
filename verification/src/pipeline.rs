//! One run, from the launch of the model server to its teardown, as a state
//! machine: the caller does the outside work that an action asks for and
//! hands back what happened as the next event.

use crate::greeting::{build_prompt, finish_greeting, model_name, model_name_text, prompt_text};
use crate::members::{members_view, names_of, parse_members, parsed_members};
use crate::message::{
    check_token, env_var_error, env_var_error_text, format_message, is_header_value,
    members_error, members_error_text, message_text, message_url, message_url_text, send_error,
    send_error_text, token_error_text,
};
use crate::text::trimmed;
use crate::weather::{weather_info, weather_or_fallback, WeatherReading};
use vstd::prelude::*;
use vstd::string::*;

verus! {

/// Where a run stands.
#[derive(Clone, Copy, Debug, PartialEq, Eq, Structural)]
pub enum Stage {
    /// The model server is being launched.
    Starting,
    /// The settings are being read.
    ReadingConfig,
    /// The weather is being looked up.
    FetchingWeather,
    /// The greeting is being written.
    Generating,
    /// The message is being posted.
    Sending,
    /// The model server has been told to stop.
    Terminating,
    /// Nothing is left to do.
    Terminated,
}

/// Whether the pipeline is at work: the server runs and the run has neither
/// ended nor been interrupted.
pub open spec fn is_running(stage: Stage) -> bool {
    stage == Stage::ReadingConfig || stage == Stage::FetchingWeather || stage == Stage::Generating
        || stage == Stage::Sending
}

/// Whether the teardown has begun or is done.
pub open spec fn is_over(stage: Stage) -> bool {
    stage == Stage::Terminating || stage == Stage::Terminated
}

/// The three settings as they were found: each the value, or why none could
/// be had.
#[derive(Debug, PartialEq, Eq)]
pub struct Settings {
    pub token: Result<String, String>,
    pub channel_id: Result<String, String>,
    pub members: Result<String, String>,
}

/// What happened outside.
#[derive(Debug, PartialEq, Eq)]
pub enum Event {
    /// The model server runs.
    Launched,
    /// The model server could not be started.
    LaunchFailed(String),
    /// The settings were looked up.
    ConfigRead(Settings),
    /// The weather service answered.
    WeatherFetched(WeatherReading),
    /// The weather could not be had.
    WeatherFailed,
    /// The generator answered.
    Generated(String),
    /// The generator failed.
    GenerationFailed(String),
    /// The message was accepted.
    Sent,
    /// The message was not accepted, or never arrived.
    SendFailed(String),
    /// The interrupt signal came.
    Interrupted,
    /// The model server was stopped, or was gone already.
    Stopped,
}

/// What the caller is to do next.
#[derive(Debug, PartialEq, Eq)]
pub enum Action {
    /// Look up the three settings.
    ReadConfig,
    /// Ask the weather service.
    FetchWeather,
    /// Ask the model for a text.
    Generate { model: String, prompt: String },
    /// Post the message.
    Send { url: String, token: String, content: String, tts: bool },
    /// Stop the model server; `by_signal` tells whether the interrupt asked
    /// for it.
    Terminate { by_signal: bool },
    /// End the process, with the error if there is one.
    Finish { error: Option<String> },
    /// Nothing: the event came out of turn or too late.
    Ignore,
}

/// A run.
pub struct Run {
    stage: Stage,
    token: String,
    channel_id: String,
    members: Vec<(String, u64)>,
    failure: Option<String>,
}

/// A setting, as texts.
pub open spec fn setting_view(setting: Result<String, String>) -> Result<Seq<char>, Seq<char>> {
    match setting {
        Ok(value) => Ok(value@),
        Err(cause) => Err(cause@),
    }
}

/// An optional text.
pub open spec fn optional_text(text: Option<String>) -> Option<Seq<char>> {
    match text {
        Some(t) => Some(t@),
        None => None,
    }
}

/// The settings, as texts.
pub ghost struct SettingsView {
    pub token: Result<Seq<char>, Seq<char>>,
    pub channel_id: Result<Seq<char>, Seq<char>>,
    pub members: Result<Seq<char>, Seq<char>>,
}

/// An event, as texts: a weather reading is its temperature and its code.
pub ghost enum EventView {
    Launched,
    LaunchFailed(Seq<char>),
    ConfigRead(SettingsView),
    WeatherFetched(Seq<char>, int),
    WeatherFailed,
    Generated(Seq<char>),
    GenerationFailed(Seq<char>),
    Sent,
    SendFailed(Seq<char>),
    Interrupted,
    Stopped,
}

/// An action, as texts.
pub ghost enum ActionView {
    ReadConfig,
    FetchWeather,
    Generate { model: Seq<char>, prompt: Seq<char> },
    Send { url: Seq<char>, token: Seq<char>, content: Seq<char>, tts: bool },
    Terminate { by_signal: bool },
    Finish { error: Option<Seq<char>> },
    Ignore,
}

/// What a run holds: its stage, the settings once they are read, and the
/// error that it will end with, if it has failed.
pub ghost struct RunView {
    pub stage: Stage,
    pub token: Seq<char>,
    pub channel_id: Seq<char>,
    pub members: Seq<(Seq<char>, u64)>,
    pub failure: Option<Seq<char>>,
}

impl View for Settings {
    type V = SettingsView;

    open spec fn view(&self) -> SettingsView {
        SettingsView {
            token: setting_view(self.token),
            channel_id: setting_view(self.channel_id),
            members: setting_view(self.members),
        }
    }
}

impl View for Event {
    type V = EventView;

    open spec fn view(&self) -> EventView {
        match *self {
            Event::Launched => EventView::Launched,
            Event::LaunchFailed(cause) => EventView::LaunchFailed(cause@),
            Event::ConfigRead(settings) => EventView::ConfigRead(settings@),
            Event::WeatherFetched(reading) => EventView::WeatherFetched(
                reading.temperature@,
                reading.code as int,
            ),
            Event::WeatherFailed => EventView::WeatherFailed,
            Event::Generated(text) => EventView::Generated(text@),
            Event::GenerationFailed(cause) => EventView::GenerationFailed(cause@),
            Event::Sent => EventView::Sent,
            Event::SendFailed(cause) => EventView::SendFailed(cause@),
            Event::Interrupted => EventView::Interrupted,
            Event::Stopped => EventView::Stopped,
        }
    }
}

impl View for Action {
    type V = ActionView;

    open spec fn view(&self) -> ActionView {
        match *self {
            Action::ReadConfig => ActionView::ReadConfig,
            Action::FetchWeather => ActionView::FetchWeather,
            Action::Generate { model, prompt } => ActionView::Generate {
                model: model@,
                prompt: prompt@,
            },
            Action::Send { url, token, content, tts } => ActionView::Send {
                url: url@,
                token: token@,
                content: content@,
                tts,
            },
            Action::Terminate { by_signal } => ActionView::Terminate { by_signal },
            Action::Finish { error } => ActionView::Finish { error: optional_text(error) },
            Action::Ignore => ActionView::Ignore,
        }
    }
}

impl View for Run {
    type V = RunView;

    closed spec fn view(&self) -> RunView {
        RunView {
            stage: self.stage,
            token: self.token@,
            channel_id: self.channel_id@,
            members: members_view(self.members@),
            failure: optional_text(self.failure),
        }
    }
}

/// What is reported when the model server cannot be started.
pub open spec fn launch_error_text(cause: Seq<char>) -> Seq<char> {
    "Failed to start `ollama serve`: "@ + cause
}

/// A run before anything has happened.
pub open spec fn initial() -> RunView {
    RunView {
        stage: Stage::Starting,
        token: Seq::empty(),
        channel_id: Seq::empty(),
        members: Seq::empty(),
        failure: None,
    }
}

/// A run that has failed while the server runs: the error is kept and the
/// server is told to stop.
pub open spec fn failed(s: RunView, report: Seq<char>) -> (RunView, ActionView) {
    (
        RunView { stage: Stage::Terminating, failure: Some(report), ..s },
        ActionView::Terminate { by_signal: false },
    )
}

/// What the settings lead to: the first missing one, in the order token,
/// channel, members, fails the run; with all three the weather is next.
pub open spec fn configured(s: RunView, settings: SettingsView) -> (RunView, ActionView) {
    match settings.token {
        Err(cause) => failed(s, env_var_error_text("GOOD_MORNING_DISCORD_TOKEN"@, cause)),
        Ok(token) => match settings.channel_id {
            Err(cause) => failed(s, env_var_error_text("GOOD_MORNING_CHANNEL_ID"@, cause)),
            Ok(channel_id) => match settings.members {
                Err(cause) => failed(s, members_error_text(cause)),
                Ok(line) => (
                    RunView {
                        stage: Stage::FetchingWeather,
                        token,
                        channel_id,
                        members: parsed_members(line),
                        failure: s.failure,
                    },
                    ActionView::FetchWeather,
                ),
            },
        },
    }
}

/// What the lookup of the weather leads to, whatever came of it: the
/// request to the generator, with the summary or the fallback phrase.
pub open spec fn forecast(s: RunView, weather: Seq<char>) -> (RunView, ActionView) {
    (
        RunView { stage: Stage::Generating, ..s },
        ActionView::Generate {
            model: model_name_text(),
            prompt: prompt_text(names_of(s.members), weather),
        },
    )
}

/// What the generator's answer leads to: the post of the trimmed answer
/// with the mentions, unless the token cannot be sent.
pub open spec fn composed(s: RunView, answer: Seq<char>) -> (RunView, ActionView) {
    if is_header_value(s.token) {
        (
            RunView { stage: Stage::Sending, ..s },
            ActionView::Send {
                url: message_url_text(s.channel_id),
                token: s.token,
                content: message_text(s.members, trimmed(answer)),
                tts: false,
            },
        )
    } else {
        failed(s, token_error_text())
    }
}

/// The rule of the run: the state after an event, and what is to be done.
pub open spec fn next(s: RunView, e: EventView) -> (RunView, ActionView) {
    match (s.stage, e) {
        (Stage::Starting, EventView::Launched) => (
            RunView { stage: Stage::ReadingConfig, ..s },
            ActionView::ReadConfig,
        ),
        (Stage::Starting, EventView::LaunchFailed(cause)) => (
            RunView { stage: Stage::Terminated, failure: Some(launch_error_text(cause)), ..s },
            ActionView::Finish { error: Some(launch_error_text(cause)) },
        ),
        (Stage::ReadingConfig, EventView::ConfigRead(settings)) => configured(s, settings),
        (Stage::FetchingWeather, EventView::WeatherFetched(temperature, code)) => forecast(
            s,
            crate::weather::weather_summary(temperature, code),
        ),
        (Stage::FetchingWeather, EventView::WeatherFailed) => forecast(
            s,
            crate::weather::weather_fallback(),
        ),
        (Stage::Generating, EventView::Generated(answer)) => composed(s, answer),
        (Stage::Generating, EventView::GenerationFailed(cause)) => failed(s, cause),
        (Stage::Sending, EventView::Sent) => (
            RunView { stage: Stage::Terminating, ..s },
            ActionView::Terminate { by_signal: false },
        ),
        (Stage::Sending, EventView::SendFailed(cause)) => failed(s, send_error_text(cause)),
        (Stage::Terminating, EventView::Stopped) => (
            RunView { stage: Stage::Terminated, ..s },
            ActionView::Finish { error: s.failure },
        ),
        (_, EventView::Interrupted) => if is_running(s.stage) {
            (
                RunView { stage: Stage::Terminating, failure: None, ..s },
                ActionView::Terminate { by_signal: true },
            )
        } else {
            (s, ActionView::Ignore)
        },
        _ => (s, ActionView::Ignore),
    }
}

/// Writes the report of a failed launch.
pub fn launch_error(cause: &str) -> (report: String)
    ensures
        report@ == launch_error_text(cause@),
{
    let mut report = String::from_str("Failed to start `ollama serve`: ");
    report.append(cause);
    report
}

impl Run {
    /// A run before anything has happened.
    pub fn new() -> (run: Run)
        ensures
            run@ == initial(),
    {
        let run = Run {
            stage: Stage::Starting,
            token: String::new(),
            channel_id: String::new(),
            members: Vec::new(),
            failure: None,
        };
        assert(members_view(run.members@) =~= Seq::empty());
        run
    }

    /// Where the run stands.
    pub fn stage(&self) -> (stage: Stage)
        ensures
            stage == self@.stage,
    {
        self.stage
    }

    /// The error that the run will end with, if it has failed.
    pub fn failure(&self) -> (failure: Option<String>)
        ensures
            optional_text(failure) == self@.failure,
    {
        self.failure.clone()
    }

    fn fail(&mut self, report: String) -> (action: Action)
        ensures
            (final(self)@, action@) == failed(old(self)@, report@),
    {
        self.stage = Stage::Terminating;
        self.failure = Some(report);
        Action::Terminate { by_signal: false }
    }

    fn configure(&mut self, settings: Settings) -> (action: Action)
        ensures
            (final(self)@, action@) == configured(old(self)@, settings@),
    {
        match settings.token {
            Err(cause) => self.fail(
                env_var_error("GOOD_MORNING_DISCORD_TOKEN", cause.as_str()),
            ),
            Ok(token) => match settings.channel_id {
                Err(cause) => self.fail(env_var_error("GOOD_MORNING_CHANNEL_ID", cause.as_str())),
                Ok(channel_id) => match settings.members {
                    Err(cause) => self.fail(members_error(cause.as_str())),
                    Ok(line) => {
                        self.members = parse_members(line.as_str());
                        self.token = token;
                        self.channel_id = channel_id;
                        self.stage = Stage::FetchingWeather;
                        Action::FetchWeather
                    },
                },
            },
        }
    }

    fn ask_generator(&mut self, reading: Option<WeatherReading>) -> (action: Action)
        ensures
            (final(self)@, action@) == forecast(old(self)@, weather_info(reading)),
    {
        let info = weather_or_fallback(reading);
        let prompt = build_prompt(self.members.as_slice(), info.as_str());
        self.stage = Stage::Generating;
        Action::Generate { model: model_name(), prompt }
    }

    fn compose(&mut self, answer: String) -> (action: Action)
        ensures
            (final(self)@, action@) == composed(old(self)@, answer@),
    {
        match check_token(self.token.as_str()) {
            Ok(_) => {
                let greeting = finish_greeting(answer.as_str());
                let content = format_message(self.members.as_slice(), greeting.as_str());
                let url = message_url(self.channel_id.as_str());
                self.stage = Stage::Sending;
                Action::Send { url, token: self.token.clone(), content, tts: false }
            },
            Err(report) => self.fail(report),
        }
    }

    /// Takes an event and says what to do next. An event that does not
    /// belong to the stage changes nothing and asks for nothing.
    pub fn step(&mut self, event: Event) -> (action: Action)
        ensures
            (final(self)@, action@) == next(old(self)@, event@),
    {
        match event {
            Event::Interrupted => match self.stage {
                Stage::ReadingConfig | Stage::FetchingWeather | Stage::Generating | Stage::Sending => {
                    self.stage = Stage::Terminating;
                    self.failure = None;
                    Action::Terminate { by_signal: true }
                },
                _ => Action::Ignore,
            },
            Event::Launched => match self.stage {
                Stage::Starting => {
                    self.stage = Stage::ReadingConfig;
                    Action::ReadConfig
                },
                _ => Action::Ignore,
            },
            Event::LaunchFailed(cause) => match self.stage {
                Stage::Starting => {
                    let report = launch_error(cause.as_str());
                    self.stage = Stage::Terminated;
                    self.failure = Some(report.clone());
                    Action::Finish { error: Some(report) }
                },
                _ => Action::Ignore,
            },
            Event::ConfigRead(settings) => match self.stage {
                Stage::ReadingConfig => self.configure(settings),
                _ => Action::Ignore,
            },
            Event::WeatherFetched(reading) => match self.stage {
                Stage::FetchingWeather => self.ask_generator(Some(reading)),
                _ => Action::Ignore,
            },
            Event::WeatherFailed => match self.stage {
                Stage::FetchingWeather => self.ask_generator(None),
                _ => Action::Ignore,
            },
            Event::Generated(answer) => match self.stage {
                Stage::Generating => self.compose(answer),
                _ => Action::Ignore,
            },
            Event::GenerationFailed(cause) => match self.stage {
                Stage::Generating => self.fail(cause),
                _ => Action::Ignore,
            },
            Event::Sent => match self.stage {
                Stage::Sending => {
                    self.stage = Stage::Terminating;
                    Action::Terminate { by_signal: false }
                },
                _ => Action::Ignore,
            },
            Event::SendFailed(cause) => match self.stage {
                Stage::Sending => self.fail(send_error(cause.as_str())),
                _ => Action::Ignore,
            },
            Event::Stopped => match self.stage {
                Stage::Terminating => {
                    self.stage = Stage::Terminated;
                    Action::Finish { error: self.failure.clone() }
                },
                _ => Action::Ignore,
            },
        }
    }
}

/// The state that a run is in after a list of events, taken in order.
pub open spec fn state_after(s: RunView, events: Seq<EventView>) -> RunView
    decreases events.len(),
{
    if events.len() == 0 {
        s
    } else {
        next(state_after(s, events.drop_last()), events.last()).0
    }
}

/// The state in which the event at a place of the list is taken.
pub open spec fn state_at(s: RunView, events: Seq<EventView>, i: int) -> RunView {
    state_after(s, events.subrange(0, i))
}

/// What the event at a place of the list asks for.
pub open spec fn action_at(s: RunView, events: Seq<EventView>, i: int) -> ActionView {
    next(state_at(s, events, i), events[i]).1
}

/// The state in which an event is taken is the one that the event before
/// it left.
pub proof fn lemma_state_at_next(s: RunView, events: Seq<EventView>, i: int)
    requires
        0 <= i < events.len(),
    ensures
        state_at(s, events, i + 1) == next(state_at(s, events, i), events[i]).0,
{
    assert(events.subrange(0, i + 1).drop_last() =~= events.subrange(0, i));
}

/// Once the teardown has begun, the run stays in teardown or ended, and the
/// error that it ends with no longer changes, whatever happens.
pub proof fn lemma_teardown_settles(s: RunView, events: Seq<EventView>, k: int, j: int)
    requires
        0 <= k <= j <= events.len(),
        is_over(state_at(s, events, k).stage),
    ensures
        is_over(state_at(s, events, j).stage),
        state_at(s, events, j).failure == state_at(s, events, k).failure,
    decreases j - k,
{
    if k < j {
        lemma_teardown_settles(s, events, k, j - 1);
        lemma_state_at_next(s, events, j - 1);
    }
}

/// The model server is told to stop at most once: after an event that asked
/// for it, no later event asks again.
pub proof fn lemma_terminated_at_most_once(s: RunView, events: Seq<EventView>, i: int, j: int)
    requires
        0 <= i < j < events.len(),
        action_at(s, events, i) is Terminate,
    ensures
        !(action_at(s, events, j) is Terminate),
{
    lemma_state_at_next(s, events, i);
    lemma_teardown_settles(s, events, i + 1, j);
}

/// The message is posted only for an answer of the generator, taken while
/// the run waits for one.
pub proof fn lemma_send_needs_answer(s: RunView, e: EventView)
    requires
        next(s, e).1 is Send,
    ensures
        s.stage == Stage::Generating,
        e is Generated,
        next(s, e).0.stage == Stage::Sending,
{
}

/// A failed weather lookup does not fail the run: the generator is asked
/// all the same, with the fallback phrase in the place of the summary.
pub proof fn lemma_weather_failure_is_not_fatal(s: RunView)
    requires
        s.stage == Stage::FetchingWeather,
    ensures
        next(s, EventView::WeatherFailed).0 == (RunView { stage: Stage::Generating, ..s }),
        next(s, EventView::WeatherFailed).1 == (ActionView::Generate {
            model: model_name_text(),
            prompt: prompt_text(names_of(s.members), crate::weather::weather_fallback()),
        }),
{
}

/// A failure of the generator ends the run with the generator's error: the
/// server is told to stop, nothing is ever posted afterwards, and the run
/// finishes with that error.
pub proof fn lemma_generation_failure_is_fatal(
    s: RunView,
    events: Seq<EventView>,
    i: int,
    j: int,
    cause: Seq<char>,
)
    requires
        0 <= i < j < events.len(),
        state_at(s, events, i).stage == Stage::Generating,
        events[i] == EventView::GenerationFailed(cause),
    ensures
        action_at(s, events, i) == (ActionView::Terminate { by_signal: false }),
        !(action_at(s, events, j) is Send),
        !(action_at(s, events, j) is Terminate),
        action_at(s, events, j) is Finish ==> action_at(s, events, j) == (ActionView::Finish {
            error: Some(cause),
        }),
{
    lemma_state_at_next(s, events, i);
    lemma_teardown_settles(s, events, i + 1, j);
}

/// An interrupt that comes while the pipeline is at work has the server
/// stopped at once, and by no other event of the run, earlier or later: the
/// end of the abandoned pipeline is ignored, nothing is posted any more, and
/// the run finishes without an error.
pub proof fn lemma_interrupt_terminates_once(
    s: RunView,
    events: Seq<EventView>,
    i: int,
    j: int,
)
    requires
        0 <= i < events.len(),
        0 <= j < events.len(),
        j != i,
        is_running(state_at(s, events, i).stage),
        events[i] is Interrupted,
    ensures
        action_at(s, events, i) == (ActionView::Terminate { by_signal: true }),
        !(action_at(s, events, j) is Terminate),
        j > i ==> !(action_at(s, events, j) is Send),
        j > i && action_at(s, events, j) is Finish ==> action_at(s, events, j) == (
        ActionView::Finish { error: None }),
{
    if j > i {
        lemma_state_at_next(s, events, i);
        lemma_teardown_settles(s, events, i + 1, j);
    } else if action_at(s, events, j) is Terminate {
        lemma_state_at_next(s, events, j);
        lemma_teardown_settles(s, events, j + 1, i);
    }
}

/// A failed post ends the run with a report that closes with the cause as
/// it was given, and the server is still told to stop: at once, and once.
pub proof fn lemma_send_failure_is_reported(
    s: RunView,
    events: Seq<EventView>,
    i: int,
    j: int,
    cause: Seq<char>,
)
    requires
        0 <= i < j < events.len(),
        state_at(s, events, i).stage == Stage::Sending,
        events[i] == EventView::SendFailed(cause),
    ensures
        action_at(s, events, i) == (ActionView::Terminate { by_signal: false }),
        state_at(s, events, i + 1).failure == Some(send_error_text(cause)),
        send_error_text(cause).len() >= cause.len(),
        send_error_text(cause).subrange(
            send_error_text(cause).len() - cause.len(),
            send_error_text(cause).len() as int,
        ) == cause,
        !(action_at(s, events, j) is Terminate),
        action_at(s, events, j) is Finish ==> action_at(s, events, j) == (ActionView::Finish {
            error: Some(send_error_text(cause)),
        }),
{
    lemma_state_at_next(s, events, i);
    lemma_teardown_settles(s, events, i + 1, j);
    let report = send_error_text(cause);
    assert(report.subrange(report.len() - cause.len(), report.len() as int) =~= cause);
}

/// A launch that fails ends the run there: the error is reported, and no
/// later event asks for anything, the stopping of the server included.
pub proof fn lemma_launch_failure_ends_run(
    s: RunView,
    events: Seq<EventView>,
    j: int,
    cause: Seq<char>,
)
    requires
        0 < j < events.len(),
        s.stage == Stage::Starting,
        events[0] == EventView::LaunchFailed(cause),
    ensures
        action_at(s, events, 0) == (ActionView::Finish { error: Some(launch_error_text(cause)) }),
        action_at(s, events, j) == ActionView::Ignore,
{
    assert(events.subrange(0, 0) =~= Seq::<EventView>::empty());
    lemma_state_at_next(s, events, 0);
    lemma_stays_terminated(s, events, 1, j);
}

/// A run that has ended stays ended.
pub proof fn lemma_stays_terminated(s: RunView, events: Seq<EventView>, k: int, j: int)
    requires
        0 <= k <= j <= events.len(),
        state_at(s, events, k).stage == Stage::Terminated,
    ensures
        state_at(s, events, j) == state_at(s, events, k),
    decreases j - k,
{
    if k < j {
        lemma_stays_terminated(s, events, k, j - 1);
        lemma_state_at_next(s, events, j - 1);
    }
}

/// Only an event that asks for the server to be stopped brings a run into
/// teardown.
pub proof fn lemma_teardown_is_asked_for(s: RunView, e: EventView)
    requires
        s.stage != Stage::Terminating,
        next(s, e).0.stage == Stage::Terminating,
    ensures
        next(s, e).1 is Terminate,
        is_running(s.stage),
{
}

/// A run whose server was started never finishes without teardown: where a
/// run that began before teardown finishes out of it, an earlier event has
/// asked for the server to be stopped, and the result is its place in the list.
pub proof fn lemma_finish_follows_teardown(s: RunView, events: Seq<EventView>, j: int) -> (i: int)
    requires
        0 <= j <= events.len(),
        !is_over(s.stage),
        state_at(s, events, j).stage == Stage::Terminating,
    ensures
        0 <= i < j,
        action_at(s, events, i) is Terminate,
    decreases j,
{
    if j == 0 {
        assert(events.subrange(0, 0) =~= Seq::<EventView>::empty());
        0
    } else {
        lemma_state_at_next(s, events, j - 1);
        if state_at(s, events, j - 1).stage == Stage::Terminating {
            lemma_finish_follows_teardown(s, events, j - 1)
        } else {
            lemma_teardown_is_asked_for(state_at(s, events, j - 1), events[j - 1]);
            j - 1
        }
    }
}

/// What holds of a run in every state that it can reach: an error is kept
/// only from the moment at which the run is being torn down or has ended.
pub open spec fn is_consistent(s: RunView) -> bool {
    s.failure is Some ==> is_over(s.stage)
}

/// No event makes a run inconsistent.
pub proof fn lemma_step_keeps_consistency(s: RunView, e: EventView)
    requires
        is_consistent(s),
    ensures
        is_consistent(next(s, e).0),
{
}

/// A new run is consistent and stays so, whatever happens: while the
/// pipeline is at work, no error is pending.
pub proof fn lemma_run_is_consistent(events: Seq<EventView>)
    ensures
        is_consistent(state_after(initial(), events)),
    decreases events.len(),
{
    if events.len() > 0 {
        lemma_run_is_consistent(events.drop_last());
        lemma_step_keeps_consistency(state_after(initial(), events.drop_last()), events.last());
    }
}

} // verus!
