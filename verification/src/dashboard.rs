//! Dashboard bookkeeping: list selections, transient notifications with
//! their countdowns, and the key bindings. All of it is synchronous local
//! state; the render loop, the terminal and the worker threads live with the
//! caller, which polls input at a fixed short interval and drains result
//! channels without ever blocking on a run.

use crate::run::TestResult;
use vstd::prelude::*;
use vstd::string::StringExecFns;

verus! {

/// How long a fresh notification stays, in milliseconds: it is shown until
/// the next frame's countdown pass evicts it.
pub const POPUP_DURATION_MS: u64 = 0;

/// One transient notification: its text, whether it reports success, and the
/// display time it has left.
#[derive(Debug)]
pub struct Popup {
    pub content: String,
    pub success: bool,
    pub remaining_ms: u64,
}

/// The dashboard's local state: which test file and which test are selected,
/// and the live notifications.
#[derive(Debug)]
pub struct Dashboard {
    pub test_file_selected: usize,
    pub test_selected: usize,
    pub popups: Vec<Popup>,
}

/// One frame's countdown pass: every notification loses the elapsed time,
/// saturating at zero, and the expired ones are evicted.
pub open spec fn tick_spec(ps: Seq<Popup>, elapsed: int) -> Seq<Popup>
    decreases ps.len(),
{
    if ps.len() == 0 {
        Seq::empty()
    } else {
        let p = ps.first();
        let rest = tick_spec(ps.drop_first(), elapsed);
        let rem = if p.remaining_ms >= elapsed {
            p.remaining_ms - elapsed
        } else {
            0
        };
        if rem == 0 {
            rest
        } else {
            seq![Popup { remaining_ms: rem as u64, ..p }] + rest
        }
    }
}

impl Dashboard {
    /// A fresh dashboard: first file and first test selected, no
    /// notifications.
    pub fn new() -> (d: Dashboard)
        ensures
            d.test_file_selected == 0,
            d.test_selected == 0,
            d.popups@.len() == 0,
    {
        Dashboard { test_file_selected: 0, test_selected: 0, popups: Vec::new() }
    }

    /// Applies one frame's elapsed time to the notifications.
    #[verifier::loop_isolation(false)]
    pub fn update(&mut self, elapsed_ms: u64)
        ensures
            final(self).popups@ == tick_spec(old(self).popups@, elapsed_ms as int),
            final(self).test_file_selected == old(self).test_file_selected,
            final(self).test_selected == old(self).test_selected,
    {
        let mut kept: Vec<Popup> = Vec::new();
        proof {
            assert(kept@ + tick_spec(self.popups@, elapsed_ms as int) =~= tick_spec(
                old(self).popups@,
                elapsed_ms as int,
            ));
        }
        while self.popups.len() > 0
            invariant
                tick_spec(old(self).popups@, elapsed_ms as int) == kept@ + tick_spec(
                    self.popups@,
                    elapsed_ms as int,
                ),
                self.test_file_selected == old(self).test_file_selected,
                self.test_selected == old(self).test_selected,
            decreases self.popups@.len(),
        {
            let ghost pre = self.popups@;
            let mut p = self.popups.remove(0);
            proof {
                assert(pre.first() == p);
                assert(self.popups@ =~= pre.drop_first());
            }
            let rem: u64 = if p.remaining_ms >= elapsed_ms {
                p.remaining_ms - elapsed_ms
            } else {
                0
            };
            if rem > 0 {
                let ghost kept_pre = kept@;
                p.remaining_ms = rem;
                kept.push(p);
                proof {
                    assert(kept@ + tick_spec(self.popups@, elapsed_ms as int) =~= kept_pre
                        + tick_spec(pre, elapsed_ms as int));
                }
            }
        }
        proof {
            assert(tick_spec(self.popups@, elapsed_ms as int) =~= Seq::<Popup>::empty());
            assert(kept@ =~= tick_spec(old(self).popups@, elapsed_ms as int));
        }
        self.popups = kept;
    }

    /// Adds a notification for a finished run.
    pub fn add_popup(&mut self, content: String, success: bool)
        ensures
            final(self).popups@ == old(self).popups@.push(
                Popup { content, success, remaining_ms: POPUP_DURATION_MS },
            ),
            final(self).test_file_selected == old(self).test_file_selected,
            final(self).test_selected == old(self).test_selected,
    {
        self.popups.push(Popup { content, success, remaining_ms: POPUP_DURATION_MS });
    }
}

/// A key press, as the dashboard reads it.
#[derive(Debug, Clone, Copy, PartialEq, Eq, Structural)]
pub enum Key {
    Char(char),
    Enter,
    Other,
}

/// What the event loop does next for a key press. Selection moves are
/// synchronous local updates with no suspension; a run is started on a
/// separate thread so the loop stays responsive.
#[derive(Debug, Clone, Copy, PartialEq, Eq, Structural)]
pub enum KeyAction {
    /// Leave the dashboard.
    Quit,
    /// Start a manual suite run in the background.
    StartRun,
    /// A selection changed; redraw.
    Moved,
    /// Nothing to do.
    Ignored,
}

impl Dashboard {
    /// Applies one key press: `q` quits, Enter starts a run, `j`/`k` move the
    /// test selection down/up (saturating), `h` moves to the previous test
    /// file (saturating); everything else is ignored.
    pub fn on_key(&mut self, key: Key) -> (a: KeyAction)
        ensures
            final(self).popups == old(self).popups,
            key == Key::Char('q') ==> a == KeyAction::Quit && *final(self) == *old(self),
            key == Key::Enter ==> a == KeyAction::StartRun && *final(self) == *old(self),
            key == Key::Char('j') ==> a == KeyAction::Moved && final(self).test_file_selected
                == old(self).test_file_selected && final(self).test_selected == if old(
                self,
            ).test_selected < usize::MAX {
                old(self).test_selected + 1
            } else {
                old(self).test_selected as int
            },
            key == Key::Char('k') ==> a == KeyAction::Moved && final(self).test_file_selected
                == old(self).test_file_selected && final(self).test_selected == if old(
                self,
            ).test_selected > 0 {
                old(self).test_selected - 1
            } else {
                0int
            },
            key == Key::Char('h') ==> a == KeyAction::Moved && final(self).test_selected == old(
                self,
            ).test_selected && final(self).test_file_selected == if old(self).test_file_selected
                > 0 {
                old(self).test_file_selected - 1
            } else {
                0int
            },
            (key matches Key::Char(c) && c != 'q' && c != 'j' && c != 'k' && c != 'h' ==> a
                == KeyAction::Ignored && *final(self) == *old(self)),
            key == Key::Other ==> a == KeyAction::Ignored && *final(self) == *old(self),
    {
        match key {
            Key::Char(c) => {
                if c == 'q' {
                    KeyAction::Quit
                } else if c == 'j' {
                    if self.test_selected < usize::MAX {
                        self.test_selected = self.test_selected + 1;
                    }
                    KeyAction::Moved
                } else if c == 'k' {
                    if self.test_selected > 0 {
                        self.test_selected = self.test_selected - 1;
                    }
                    KeyAction::Moved
                } else if c == 'h' {
                    if self.test_file_selected > 0 {
                        self.test_file_selected = self.test_file_selected - 1;
                    }
                    KeyAction::Moved
                } else {
                    KeyAction::Ignored
                }
            },
            Key::Enter => KeyAction::StartRun,
            Key::Other => KeyAction::Ignored,
        }
    }
}

/// What `str::trim` yields on this text; a function of the text alone.
pub uninterp spec fn trimmed_text(s: Seq<char>) -> Seq<char>;

/// Relies on `str::trim`: removes leading and trailing whitespace. The result
/// depends on the text alone.
#[verifier::external_body]
fn trim_string(s: &str) -> (r: String)
    ensures
        r@ == trimmed_text(s@),
{
    s.trim().to_string()
}

/// The text the result pane shows for one result: the trimmed transcript, or
/// a placeholder for a test that has not run.
pub open spec fn display_text_spec(r: TestResult) -> Seq<char> {
    match r {
        TestResult::NotRun => "Test not run"@,
        TestResult::Error(m) => trimmed_text(m@),
        TestResult::Failed(m) => trimmed_text(m@),
        TestResult::Passed(m) => trimmed_text(m@),
    }
}

/// The text for the selected test, when the selection points at a result.
pub fn test_display(results: &Vec<TestResult>, selected: usize) -> (r: Option<String>)
    ensures
        selected < results@.len() ==> (r matches Some(s) && s@ == display_text_spec(
            results@[selected as int],
        )),
        selected >= results@.len() ==> r is None,
{
    if selected >= results.len() {
        return None;
    }
    match &results[selected] {
        TestResult::NotRun => Some("Test not run".to_owned()),
        TestResult::Error(m) => Some(trim_string(m.as_str())),
        TestResult::Failed(m) => Some(trim_string(m.as_str())),
        TestResult::Passed(m) => Some(trim_string(m.as_str())),
    }
}

} // verus!
