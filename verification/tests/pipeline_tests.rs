use good_morning::pipeline::{launch_error, Action, Event, Run, Settings, Stage};
use good_morning::weather::WeatherReading;

fn settings(token: &str, channel_id: &str, members: &str) -> Settings {
    Settings {
        token: Ok(token.to_string()),
        channel_id: Ok(channel_id.to_string()),
        members: Ok(members.to_string()),
    }
}

fn missing() -> Result<String, String> {
    Err("environment variable not found".to_string())
}

fn prompt_with(names: &str, weather: &str) -> String {
    format!(
        "Create a kawaii, uwu and cute morning greeting in Russian, including information about the weather for the day for: {}. Weather: {}. Include a suggestion on how to dress appropriately for the weather and etc. The response should be a direct greeting, without any explanations or additional details.",
        names, weather
    )
}

/// A run that waits for the weather, with two members.
fn run_at_weather() -> Run {
    let mut run = Run::new();
    assert_eq!(run.step(Event::Launched), Action::ReadConfig);
    assert_eq!(
        run.step(Event::ConfigRead(settings("Bot t0k3n", "42", "Alice,123,Bob,456"))),
        Action::FetchWeather
    );
    run
}

/// A run that waits for the generator.
fn run_at_generation() -> Run {
    let mut run = run_at_weather();
    let reading = WeatherReading { temperature: "21.5".to_string(), code: 63 };
    assert!(matches!(run.step(Event::WeatherFetched(reading)), Action::Generate { .. }));
    run
}

/// A run that waits for the post.
fn run_at_send() -> Run {
    let mut run = run_at_generation();
    assert!(matches!(run.step(Event::Generated("hi".to_string())), Action::Send { .. }));
    run
}

#[test]
fn a_run_starts_by_launching() {
    let run = Run::new();
    assert_eq!(run.stage(), Stage::Starting);
    assert_eq!(run.failure(), None);
}

#[test]
fn the_whole_run() {
    let mut run = Run::new();
    assert_eq!(run.step(Event::Launched), Action::ReadConfig);
    assert_eq!(run.stage(), Stage::ReadingConfig);
    assert_eq!(
        run.step(Event::ConfigRead(settings("Bot t0k3n", "42", "Alice,123,Bob,456"))),
        Action::FetchWeather
    );
    assert_eq!(run.stage(), Stage::FetchingWeather);
    let reading = WeatherReading { temperature: "21.5".to_string(), code: 63 };
    assert_eq!(
        run.step(Event::WeatherFetched(reading)),
        Action::Generate {
            model: "llama3".to_string(),
            prompt: prompt_with("Alice, Bob", "21.5°C, rain"),
        }
    );
    assert_eq!(run.stage(), Stage::Generating);
    assert_eq!(
        run.step(Event::Generated("  Good morning!\n".to_string())),
        Action::Send {
            url: "https://discord.com/api/v9/channels/42/messages".to_string(),
            token: "Bot t0k3n".to_string(),
            content: "Good morning!\n<@123> <@456>".to_string(),
            tts: false,
        }
    );
    assert_eq!(run.stage(), Stage::Sending);
    assert_eq!(run.step(Event::Sent), Action::Terminate { by_signal: false });
    assert_eq!(run.stage(), Stage::Terminating);
    assert_eq!(run.step(Event::Stopped), Action::Finish { error: None });
    assert_eq!(run.stage(), Stage::Terminated);
    assert_eq!(run.failure(), None);
}

#[test]
fn weather_failure_does_not_abort_the_run() {
    let mut run = run_at_weather();
    assert_eq!(
        run.step(Event::WeatherFailed),
        Action::Generate {
            model: "llama3".to_string(),
            prompt: prompt_with("Alice, Bob", "не удалось получить данные о погоде"),
        }
    );
    assert_eq!(run.stage(), Stage::Generating);
    assert_eq!(run.failure(), None);
    assert!(matches!(run.step(Event::Generated("hi".to_string())), Action::Send { .. }));
}

#[test]
fn generation_failure_aborts_and_nothing_is_sent() {
    let mut run = run_at_generation();
    assert_eq!(
        run.step(Event::GenerationFailed("connection refused".to_string())),
        Action::Terminate { by_signal: false }
    );
    assert_eq!(run.stage(), Stage::Terminating);
    assert_eq!(run.failure(), Some("connection refused".to_string()));
    assert_eq!(run.step(Event::Generated("late".to_string())), Action::Ignore);
    assert_eq!(run.step(Event::Sent), Action::Ignore);
    assert_eq!(run.step(Event::Interrupted), Action::Ignore);
    assert_eq!(
        run.step(Event::Stopped),
        Action::Finish { error: Some("connection refused".to_string()) }
    );
    assert_eq!(run.step(Event::Generated("later".to_string())), Action::Ignore);
}

#[test]
fn interrupt_terminates_exactly_once() {
    let mut run = run_at_generation();
    assert_eq!(run.step(Event::Interrupted), Action::Terminate { by_signal: true });
    assert_eq!(run.stage(), Stage::Terminating);
    assert_eq!(run.step(Event::Generated("hi".to_string())), Action::Ignore);
    assert_eq!(run.step(Event::Sent), Action::Ignore);
    assert_eq!(run.step(Event::SendFailed("x".to_string())), Action::Ignore);
    assert_eq!(run.step(Event::Interrupted), Action::Ignore);
    assert_eq!(run.step(Event::Stopped), Action::Finish { error: None });
    assert_eq!(run.step(Event::Stopped), Action::Ignore);
    assert_eq!(run.step(Event::Interrupted), Action::Ignore);
    assert_eq!(run.stage(), Stage::Terminated);
}

#[test]
fn interrupt_in_each_running_stage() {
    let mut run = Run::new();
    run.step(Event::Launched);
    assert_eq!(run.step(Event::Interrupted), Action::Terminate { by_signal: true });
    let mut run = run_at_weather();
    assert_eq!(run.step(Event::Interrupted), Action::Terminate { by_signal: true });
    let mut run = run_at_send();
    assert_eq!(run.step(Event::Interrupted), Action::Terminate { by_signal: true });
    assert_eq!(run.step(Event::Stopped), Action::Finish { error: None });
}

#[test]
fn interrupt_before_launch_and_after_completion_asks_for_nothing() {
    let mut run = Run::new();
    assert_eq!(run.step(Event::Interrupted), Action::Ignore);
    assert_eq!(run.stage(), Stage::Starting);
    let mut run = run_at_send();
    assert_eq!(run.step(Event::Sent), Action::Terminate { by_signal: false });
    assert_eq!(run.step(Event::Interrupted), Action::Ignore);
    assert_eq!(run.step(Event::Stopped), Action::Finish { error: None });
}

#[test]
fn send_failure_is_reported_with_its_cause_after_teardown() {
    let mut run = run_at_send();
    let cause = "HTTP status client error (403 Forbidden) for url (https://discord.com/api/v9/channels/42/messages)";
    assert_eq!(run.step(Event::SendFailed(cause.to_string())), Action::Terminate { by_signal: false });
    let report = run.failure().unwrap();
    assert_eq!(report, format!("Failed to send message: {}", cause));
    assert!(report.contains("403 Forbidden"));
    assert_eq!(run.step(Event::Stopped), Action::Finish { error: Some(report) });
}

#[test]
fn launch_failure_ends_the_run_without_teardown() {
    let mut run = Run::new();
    assert_eq!(
        run.step(Event::LaunchFailed("No such file or directory (os error 2)".to_string())),
        Action::Finish {
            error: Some("Failed to start `ollama serve`: No such file or directory (os error 2)".to_string()),
        }
    );
    assert_eq!(run.stage(), Stage::Terminated);
    assert_eq!(run.step(Event::Launched), Action::Ignore);
    assert_eq!(run.step(Event::Stopped), Action::Ignore);
    assert_eq!(launch_error("x"), "Failed to start `ollama serve`: x");
}

#[test]
fn a_missing_token_is_fatal() {
    let mut run = Run::new();
    run.step(Event::Launched);
    let found = Settings { token: missing(), channel_id: missing(), members: missing() };
    assert_eq!(run.step(Event::ConfigRead(found)), Action::Terminate { by_signal: false });
    assert_eq!(
        run.failure(),
        Some("Failed to find GOOD_MORNING_DISCORD_TOKEN: environment variable not found".to_string())
    );
    assert_eq!(run.step(Event::Stopped), Action::Finish { error: run.failure() });
}

#[test]
fn a_missing_channel_is_fatal() {
    let mut run = Run::new();
    run.step(Event::Launched);
    let found = Settings { token: Ok("t".to_string()), channel_id: missing(), members: missing() };
    assert_eq!(run.step(Event::ConfigRead(found)), Action::Terminate { by_signal: false });
    assert_eq!(
        run.failure(),
        Some("Failed to find GOOD_MORNING_CHANNEL_ID: environment variable not found".to_string())
    );
}

#[test]
fn a_missing_list_of_members_is_fatal() {
    let mut run = Run::new();
    run.step(Event::Launched);
    let found = Settings {
        token: Ok("t".to_string()),
        channel_id: Ok("42".to_string()),
        members: missing(),
    };
    assert_eq!(run.step(Event::ConfigRead(found)), Action::Terminate { by_signal: false });
    assert_eq!(
        run.failure(),
        Some("Failed to read 'GOOD_MORNING_MEMBERS': environment variable not found".to_string())
    );
    assert_eq!(run.stage(), Stage::Terminating);
}

#[test]
fn a_token_that_no_header_takes_fails_before_the_post() {
    let mut run = Run::new();
    run.step(Event::Launched);
    run.step(Event::ConfigRead(settings("bad\ntoken", "42", "Alice,123")));
    run.step(Event::WeatherFailed);
    assert_eq!(run.step(Event::Generated("hi".to_string())), Action::Terminate { by_signal: false });
    assert_eq!(run.failure(), Some("failed to parse header value".to_string()));
    assert_eq!(run.step(Event::Sent), Action::Ignore);
}

#[test]
fn an_empty_answer_is_sent_as_it_is() {
    let mut run = run_at_generation();
    assert_eq!(
        run.step(Event::Generated(" \n ".to_string())),
        Action::Send {
            url: "https://discord.com/api/v9/channels/42/messages".to_string(),
            token: "Bot t0k3n".to_string(),
            content: "\n<@123> <@456>".to_string(),
            tts: false,
        }
    );
}

#[test]
fn events_out_of_turn_change_nothing() {
    let mut run = Run::new();
    assert_eq!(run.step(Event::Sent), Action::Ignore);
    assert_eq!(run.step(Event::Stopped), Action::Ignore);
    assert_eq!(run.step(Event::WeatherFailed), Action::Ignore);
    assert_eq!(run.stage(), Stage::Starting);
    let mut run = run_at_weather();
    assert_eq!(run.step(Event::Launched), Action::Ignore);
    assert_eq!(run.step(Event::Generated("x".to_string())), Action::Ignore);
    assert_eq!(run.step(Event::GenerationFailed("x".to_string())), Action::Ignore);
    assert_eq!(run.stage(), Stage::FetchingWeather);
    assert_eq!(run.failure(), None);
}

#[test]
fn malformed_members_are_left_out_of_prompt_and_mentions() {
    let mut run = Run::new();
    run.step(Event::Launched);
    run.step(Event::ConfigRead(settings("t", "7", "Alice,abc,Bob,456,Carol")));
    assert_eq!(
        run.step(Event::WeatherFailed),
        Action::Generate {
            model: "llama3".to_string(),
            prompt: prompt_with("Bob", "не удалось получить данные о погоде"),
        }
    );
    assert_eq!(
        run.step(Event::Generated("hi".to_string())),
        Action::Send {
            url: "https://discord.com/api/v9/channels/7/messages".to_string(),
            token: "t".to_string(),
            content: "hi\n<@456>".to_string(),
            tts: false,
        }
    );
}
