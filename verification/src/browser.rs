//! Starting the browser that runs the client, and closing it again.

use crate::text::{contains, lemma_occurs_between, occurs};
use vstd::prelude::*;

verus! {

/// The host on which the page is served.
pub const SERVE_HOST: [u8; 4] = [127, 0, 0, 1];

/// The port on which the page is served.
pub const SERVE_PORT: u16 = 8080;

/// The page that the browser opens.
pub const HOME_URL: &'static str = "http://127.0.0.1:8080/";

/// How the driver is told its port.
pub const DRIVER_ARGUMENT: &'static str = "--port=45782";

/// Where the driver is reached.
pub const DRIVER_URL: &'static str = "http://localhost:45782";

/// What the driver prints once it is ready.
pub const DRIVER_READY: &'static str = "ChromeDriver was started successfully";

/// How long, in seconds, the browser stays open where nobody closes it.
pub const BROWSER_TIMEOUT: u64 = 15;

/// The command that starts the driver.
pub fn driver_command(windows: bool) -> (r: &'static str)
    ensures
        r@ == if windows {
            "chromedriver.cmd"@
        } else {
            "chromedriver"@
        },
{
    if windows {
        "chromedriver.cmd"
    } else {
        "chromedriver"
    }
}

/// What has to be done next to start the browser, in this order.
#[derive(Debug, Clone, Copy, PartialEq, Eq, Structural)]
pub enum LaunchStep {
    /// Start the driver.
    SpawnDriver,
    /// Take hold of its output.
    TakeStdout,
    /// Read a line of its output.
    ReadLine,
    /// Ask for a browser without a window.
    SetHeadless,
    /// Ask it not to use shared memory.
    SetDisableDevShmUsage,
    /// Ask it to run without a sandbox.
    SetNoSandbox,
    /// Connect to the driver.
    CreateDriver,
    /// Open the page.
    Navigate,
    /// The browser shows the page.
    Ready,
}

/// How a step went.
pub enum LaunchEvent {
    /// It is done.
    Done,
    /// It read this line.
    Line(String),
    /// There was no line left to read.
    EndOfOutput,
    /// It failed with this error.
    Failed(String),
}

/// The step behind a step that is done.
pub open spec fn launch_successor(step: LaunchStep) -> LaunchStep {
    match step {
        LaunchStep::SpawnDriver => LaunchStep::TakeStdout,
        LaunchStep::TakeStdout => LaunchStep::ReadLine,
        LaunchStep::ReadLine => LaunchStep::SetHeadless,
        LaunchStep::SetHeadless => LaunchStep::SetDisableDevShmUsage,
        LaunchStep::SetDisableDevShmUsage => LaunchStep::SetNoSandbox,
        LaunchStep::SetNoSandbox => LaunchStep::CreateDriver,
        LaunchStep::CreateDriver => LaunchStep::Navigate,
        LaunchStep::Navigate => LaunchStep::Ready,
        LaunchStep::Ready => LaunchStep::Ready,
    }
}

/// What is reported of a failed step: its error, a text of its own, or both.
pub open spec fn launch_failure(step: LaunchStep, error: Seq<char>) -> Seq<char> {
    match step {
        LaunchStep::TakeStdout => "No stdout found for webdriver"@,
        LaunchStep::SetHeadless => "Failed to set headless"@,
        LaunchStep::SetDisableDevShmUsage => "Failed to set disable_dev_shm_usage"@,
        LaunchStep::SetNoSandbox => "Failed to set no_sandbox"@,
        LaunchStep::CreateDriver => "Failed to create web driver: "@ + error,
        LaunchStep::Navigate => "Failed to navigate to test service: "@ + error,
        LaunchStep::SpawnDriver | LaunchStep::ReadLine | LaunchStep::Ready => error,
    }
}

/// What follows on a step: the next one, or a report of its failure. Lines are read until one
/// says that the driver is ready, or until there are none left.
pub open spec fn launch_next(step: LaunchStep, event: LaunchEvent) -> Result<LaunchStep, Seq<char>> {
    match event {
        LaunchEvent::Failed(error) => Err(launch_failure(step, error@)),
        LaunchEvent::Done => if step == LaunchStep::ReadLine {
            Ok(step)
        } else {
            Ok(launch_successor(step))
        },
        LaunchEvent::Line(line) => if step == LaunchStep::ReadLine && occurs(
            line@,
            DRIVER_READY@,
        ) {
            Ok(launch_successor(step))
        } else {
            Ok(step)
        },
        LaunchEvent::EndOfOutput => if step == LaunchStep::ReadLine {
            Ok(launch_successor(step))
        } else {
            Ok(step)
        },
    }
}

/// A text, with an error behind it.
fn with_error(text: &str, error: &String) -> (r: String)
    ensures
        r@ == text@ + error@,
{
    let mut report = String::new();
    report.append(text);
    report.append(error.as_str());
    assert(Seq::<char>::empty() + text@ =~= text@);
    report
}

impl LaunchStep {
    /// The step behind a step that is done.
    fn successor(self) -> (r: LaunchStep)
        ensures
            r == launch_successor(self),
    {
        match self {
            LaunchStep::SpawnDriver => LaunchStep::TakeStdout,
            LaunchStep::TakeStdout => LaunchStep::ReadLine,
            LaunchStep::ReadLine => LaunchStep::SetHeadless,
            LaunchStep::SetHeadless => LaunchStep::SetDisableDevShmUsage,
            LaunchStep::SetDisableDevShmUsage => LaunchStep::SetNoSandbox,
            LaunchStep::SetNoSandbox => LaunchStep::CreateDriver,
            LaunchStep::CreateDriver => LaunchStep::Navigate,
            LaunchStep::Navigate => LaunchStep::Ready,
            LaunchStep::Ready => LaunchStep::Ready,
        }
    }

    /// What is reported where the step fails.
    fn failure(self, error: String) -> (r: String)
        ensures
            r@ == launch_failure(self, error@),
    {
        match self {
            LaunchStep::TakeStdout => "No stdout found for webdriver".to_string(),
            LaunchStep::SetHeadless => "Failed to set headless".to_string(),
            LaunchStep::SetDisableDevShmUsage => "Failed to set disable_dev_shm_usage".to_string(),
            LaunchStep::SetNoSandbox => "Failed to set no_sandbox".to_string(),
            LaunchStep::CreateDriver => with_error("Failed to create web driver: ", &error),
            LaunchStep::Navigate => with_error("Failed to navigate to test service: ", &error),
            LaunchStep::SpawnDriver | LaunchStep::ReadLine | LaunchStep::Ready => error,
        }
    }

    /// Decides what follows on the step.
    pub fn next(self, event: LaunchEvent) -> (r: Result<LaunchStep, String>)
        ensures
            match launch_next(self, event) {
                Ok(step) => r == Ok::<LaunchStep, String>(step),
                Err(report) => r matches Err(text) && text@ == report,
            },
    {
        match event {
            LaunchEvent::Failed(error) => Err(self.failure(error)),
            LaunchEvent::Done => {
                if self == LaunchStep::ReadLine {
                    Ok(self)
                } else {
                    Ok(self.successor())
                }
            },
            LaunchEvent::Line(line) => {
                if self == LaunchStep::ReadLine && contains(line.as_str(), DRIVER_READY) {
                    Ok(self.successor())
                } else {
                    Ok(self)
                }
            },
            LaunchEvent::EndOfOutput => {
                if self == LaunchStep::ReadLine {
                    Ok(self.successor())
                } else {
                    Ok(self)
                }
            },
        }
    }
}

/// How many steps of the launch lie behind.
pub open spec fn launch_progress(step: LaunchStep) -> nat {
    match step {
        LaunchStep::SpawnDriver => 0,
        LaunchStep::TakeStdout => 1,
        LaunchStep::ReadLine => 2,
        LaunchStep::SetHeadless => 3,
        LaunchStep::SetDisableDevShmUsage => 4,
        LaunchStep::SetNoSandbox => 5,
        LaunchStep::CreateDriver => 6,
        LaunchStep::Navigate => 7,
        LaunchStep::Ready => 8,
    }
}

/// A launch takes its steps one after the other and leaves none out. It stops at a failure and
/// only there, and it goes past the output of the driver only when the driver is ready or has
/// nothing more to say.
pub proof fn lemma_launch_order(step: LaunchStep, event: LaunchEvent)
    ensures
        launch_next(step, event) is Err <==> event is Failed,
        launch_next(step, event) matches Ok(next) ==> {
            ||| next == step
            ||| launch_progress(next) == launch_progress(step) + 1
        },
        launch_next(step, event) == Ok::<LaunchStep, Seq<char>>(LaunchStep::SetHeadless) && step
            != LaunchStep::SetHeadless ==> step == LaunchStep::ReadLine && (event is EndOfOutput || (
        event matches LaunchEvent::Line(line) && occurs(line@, DRIVER_READY@))),
{
}

/// While lines are read, every line that says that the driver is ready ends the reading, whatever
/// else stands in it, and so does the end of the output; every other line, and nothing else, leads
/// to one more. A line or the end of the output means nothing to any other step.
pub proof fn lemma_launch_reads(step: LaunchStep, event: LaunchEvent)
    ensures
        ({
            let says_ready = event matches LaunchEvent::Line(line) && exists|
                before: Seq<char>,
                after: Seq<char>,
            |
                line@ == #[trigger] (before + "ChromeDriver was started successfully"@ + after);
            let next = launch_next(step, event);
            &&& step == LaunchStep::ReadLine && (says_ready || event is EndOfOutput) ==> next
                == Ok::<LaunchStep, Seq<char>>(LaunchStep::SetHeadless)
            &&& step == LaunchStep::ReadLine && !says_ready && !(event is EndOfOutput) && !(
            event is Failed) ==> next == Ok::<LaunchStep, Seq<char>>(LaunchStep::ReadLine)
            &&& step != LaunchStep::ReadLine && (event is Line || event is EndOfOutput) ==> next
                == Ok::<LaunchStep, Seq<char>>(step)
        }),
{
    if let LaunchEvent::Line(line) = event {
        lemma_occurs_between(line@, DRIVER_READY@);
    }
}

/// The steps of a launch have one order. Each but the last, and but the reading of lines, is done
/// once and makes way for the next one; the last one stays.
pub proof fn lemma_launch_goes_on(i: int)
    requires
        0 <= i < 9,
    ensures
        ({
            let order = seq![
                LaunchStep::SpawnDriver,
                LaunchStep::TakeStdout,
                LaunchStep::ReadLine,
                LaunchStep::SetHeadless,
                LaunchStep::SetDisableDevShmUsage,
                LaunchStep::SetNoSandbox,
                LaunchStep::CreateDriver,
                LaunchStep::Navigate,
                LaunchStep::Ready,
            ];
            &&& i < 8 && i != 2 ==> launch_next(order[i], LaunchEvent::Done) == Ok::<
                LaunchStep,
                Seq<char>,
            >(order[i + 1])
            &&& i == 8 || i == 2 ==> launch_next(order[i], LaunchEvent::Done) == Ok::<
                LaunchStep,
                Seq<char>,
            >(order[i])
        }),
{
}

/// A failure ends the launch at every step. Where no text of the launch's own stands for it, the
/// error itself is reported; connecting and opening the page report it behind such a text, so that
/// the error can be read off the report; and the other steps report their text whatever the error.
pub proof fn lemma_launch_reports(step: LaunchStep, error: String)
    ensures
        ({
            let report = launch_next(step, LaunchEvent::Failed(error));
            &&& step == LaunchStep::SpawnDriver || step == LaunchStep::ReadLine || step
                == LaunchStep::Ready ==> report == Err::<LaunchStep, Seq<char>>(error@)
            &&& step == LaunchStep::CreateDriver ==> report == Err::<LaunchStep, Seq<char>>(
                "Failed to create web driver: "@ + error@,
            )
            &&& step == LaunchStep::Navigate ==> report == Err::<LaunchStep, Seq<char>>(
                "Failed to navigate to test service: "@ + error@,
            )
            &&& step == LaunchStep::TakeStdout ==> report == Err::<LaunchStep, Seq<char>>(
                "No stdout found for webdriver"@,
            )
            &&& step == LaunchStep::SetHeadless ==> report == Err::<LaunchStep, Seq<char>>(
                "Failed to set headless"@,
            )
            &&& step == LaunchStep::SetDisableDevShmUsage ==> report == Err::<
                LaunchStep,
                Seq<char>,
            >("Failed to set disable_dev_shm_usage"@)
            &&& step == LaunchStep::SetNoSandbox ==> report == Err::<LaunchStep, Seq<char>>(
                "Failed to set no_sandbox"@,
            )
        }),
{
}

/// What has to be done next while the page is served.
#[derive(Debug, Clone, Copy, PartialEq, Eq, Structural)]
pub enum ServeStep {
    /// Open the browser.
    OpenBrowser,
    /// Wait for the end of the exchange, but not for ever.
    AwaitShutdown,
    /// Close the browser.
    QuitDriver,
    /// Stop the driver.
    KillDriver,
    /// All is closed.
    Closed,
}

/// How a step went.
pub enum ServeEvent {
    /// It is done.
    Done,
    /// It took too long.
    TimedOut,
    /// It failed with this error.
    Failed(String),
}

/// What follows on a step: the next one, or the error of one that closes. The wait ends alike
/// whether the end was signalled, could not be signalled any more, or did not come in time.
pub open spec fn serve_next(step: ServeStep, event: ServeEvent) -> Result<ServeStep, Seq<char>> {
    match (step, event) {
        (ServeStep::OpenBrowser, ServeEvent::Done) => Ok(ServeStep::AwaitShutdown),
        (ServeStep::AwaitShutdown, _) => Ok(ServeStep::QuitDriver),
        (ServeStep::QuitDriver, ServeEvent::Done) => Ok(ServeStep::KillDriver),
        (ServeStep::KillDriver, ServeEvent::Done) => Ok(ServeStep::Closed),
        (ServeStep::QuitDriver, ServeEvent::Failed(error)) => Err(error@),
        (ServeStep::KillDriver, ServeEvent::Failed(error)) => Err(error@),
        _ => Ok(step),
    }
}

impl ServeStep {
    /// Decides what follows on the step. That the browser opens is taken for granted.
    pub fn next(self, event: ServeEvent) -> (r: Result<ServeStep, String>)
        requires
            self == ServeStep::OpenBrowser ==> !(event is Failed),
        ensures
            match serve_next(self, event) {
                Ok(step) => r == Ok::<ServeStep, String>(step),
                Err(report) => r matches Err(text) && text@ == report,
            },
    {
        match (self, event) {
            (ServeStep::OpenBrowser, ServeEvent::Done) => Ok(ServeStep::AwaitShutdown),
            (ServeStep::AwaitShutdown, _) => Ok(ServeStep::QuitDriver),
            (ServeStep::QuitDriver, ServeEvent::Done) => Ok(ServeStep::KillDriver),
            (ServeStep::KillDriver, ServeEvent::Done) => Ok(ServeStep::Closed),
            (ServeStep::QuitDriver, ServeEvent::Failed(error)) => Err(error),
            (ServeStep::KillDriver, ServeEvent::Failed(error)) => Err(error),
            _ => Ok(self),
        }
    }
}

/// However the wait ends, the browser and the driver are closed next; and an error comes from
/// closing them alone.
pub proof fn lemma_serve_closes(step: ServeStep, event: ServeEvent)
    ensures
        step == ServeStep::AwaitShutdown ==> serve_next(step, event) == Ok::<ServeStep, Seq<char>>(
            ServeStep::QuitDriver,
        ),
        serve_next(step, event) is Err ==> step == ServeStep::QuitDriver || step
            == ServeStep::KillDriver,
        serve_next(step, event) == Ok::<ServeStep, Seq<char>>(ServeStep::Closed) && step
            != ServeStep::Closed ==> step == ServeStep::KillDriver && event is Done,
        serve_next(step, event) == Ok::<ServeStep, Seq<char>>(ServeStep::KillDriver) && step
            != ServeStep::KillDriver ==> step == ServeStep::QuitDriver && event is Done,
{
}

/// Serving has one order of steps, and each step that is done makes way for the next one. The wait
/// does so however it ends; a failure to close is reported as it is; anything else leaves the step
/// to be done.
pub proof fn lemma_serve_goes_on(i: int, event: ServeEvent)
    requires
        0 <= i < 5,
    ensures
        ({
            let order = seq![
                ServeStep::OpenBrowser,
                ServeStep::AwaitShutdown,
                ServeStep::QuitDriver,
                ServeStep::KillDriver,
                ServeStep::Closed,
            ];
            let next = serve_next(order[i], event);
            &&& i < 4 && (event is Done || i == 1) ==> next == Ok::<ServeStep, Seq<char>>(
                order[i + 1],
            )
            &&& i == 2 || i == 3 ==> (event matches ServeEvent::Failed(error) ==> next == Err::<
                ServeStep,
                Seq<char>,
            >(error@))
            &&& i != 1 && event is TimedOut ==> next == Ok::<ServeStep, Seq<char>>(order[i])
            &&& i == 4 || (i == 0 && !(event is Done)) ==> next == Ok::<ServeStep, Seq<char>>(
                order[i],
            )
        }),
{
}

} // verus!
