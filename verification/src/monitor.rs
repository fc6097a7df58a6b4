//! Watching the running core.
use vstd::prelude::*;
use vstd::string::*;

use crate::api::{ApiRequest, Method, Traffic};
use crate::controller::{
    error_shown, interface_is_known_while_running, set_error, Controller, ControllerView,
};
use crate::rate::{format_rate, rate_text};
use crate::text::{join2, join3, opt_text};
use crate::ui::{
    last_flag, last_text, show, switch, views, FlagField, TextField, UiUpdate, UpdateView,
};

verus! {

/// How long to wait before the core is looked at again, in milliseconds.
pub const INTERVAL_MS: u64 = 2000;

/// The number of failures in a row after which the user is told.
pub const TOLD_FAILURES: u8 = 3;

/// What is known of the core's traffic: how often in a row it could not be
/// read, up to the largest number that can be counted.
#[derive(Debug)]
pub struct Monitor {
    pub failures: u8,
}

/// What is to be done now.
#[derive(Debug)]
pub enum Tick {
    /// The application ends: nothing, ever again.
    End,
    /// The core has ended by itself; what the window shows.
    Exited(Vec<UiUpdate>),
    /// No core runs: nothing.
    Idle,
    /// The core's traffic is to be read.
    Sample(ApiRequest),
}

/// What the window shows where the core has ended by itself.
pub open spec fn exited_shown(status: Seq<char>) -> Seq<UpdateView> {
    seq![
        UpdateView::Flag(FlagField::CoreRunning, false),
        UpdateView::Flag(FlagField::CoreBusy, false),
        UpdateView::Text(TextField::StatusMessage, "Core stopped unexpectedly"@),
        UpdateView::Text(
            TextField::ErrorMessage,
            "Mihomo exited unexpectedly ("@ + status + ")"@,
        ),
        UpdateView::Text(TextField::TrafficUpload, "—"@),
        UpdateView::Text(TextField::TrafficDownload, "—"@),
    ]
}

/// Shows that the core has ended by itself.
fn show_exited(status: &str) -> (updates: Vec<UiUpdate>)
    ensures
        views(updates@) == exited_shown(status@),
{
    let mut updates: Vec<UiUpdate> = Vec::new();
    updates.push(switch(FlagField::CoreRunning, false));
    updates.push(switch(FlagField::CoreBusy, false));
    updates.push(show(TextField::StatusMessage, "Core stopped unexpectedly"));
    updates.push(
        UiUpdate::Text(
            TextField::ErrorMessage,
            join3("Mihomo exited unexpectedly (", status, ")"),
        ),
    );
    updates.push(show(TextField::TrafficUpload, "—"));
    updates.push(show(TextField::TrafficDownload, "—"));
    assert(views(updates@) =~= exited_shown(status@));
    updates
}

/// What the window shows of the core's traffic.
pub open spec fn traffic_shown(traffic: Traffic) -> Seq<UpdateView> {
    seq![
        UpdateView::Text(TextField::TrafficUpload, rate_text(traffic.up as nat)),
        UpdateView::Text(TextField::TrafficDownload, rate_text(traffic.down as nat)),
        UpdateView::TogglePulse,
    ]
}

/// The number of failures in a row after one more.
pub open spec fn one_more(failures: u8) -> u8 {
    if failures == u8::MAX {
        failures
    } else {
        (failures + 1) as u8
    }
}

/// What the window shows where the traffic could not be read, the given number
/// of times in a row.
pub open spec fn failure_shown(failures: u8, error: Seq<char>) -> Seq<UpdateView> {
    if failures == TOLD_FAILURES {
        error_shown("Live traffic is unavailable: "@ + error)
    } else {
        Seq::empty()
    }
}

impl Monitor {
    /// Nothing was read yet.
    pub fn new() -> (monitor: Monitor)
        ensures
            monitor.failures == 0,
    {
        Monitor { failures: 0 }
    }

    /// What is to be done now. `exited` is how the core's process has ended, if
    /// it has. Without a core it is disregarded; with one, the core is
    /// forgotten.
    pub fn tick<S>(&mut self, controller: &mut Controller<S>, exited: Option<String>) -> (tick:
        Tick)
        ensures
            final(controller)@ == (if exited is Some && old(controller)@.sidecar is Some {
                old(controller)@.stopped()
            } else {
                old(controller)@
            }),
            match tick {
                Tick::End => old(controller)@.shutting_down,
                Tick::Exited(updates) => !old(controller)@.shutting_down && old(
                    controller,
                )@.sidecar is Some && exited is Some && views(updates@) == exited_shown(
                    opt_text(exited)->0,
                ),
                Tick::Idle => !old(controller)@.shutting_down && old(controller)@.sidecar is None,
                Tick::Sample(request) => !old(controller)@.shutting_down && old(
                    controller,
                )@.sidecar is Some && exited is None && request@ == old(
                    controller,
                )@.api->0.request(Method::Get, "/traffic"@, 5000),
            },
            final(self).failures == (if tick is Idle {
                0
            } else {
                old(self).failures
            }),
    {
        proof {
            interface_is_known_while_running(*controller);
        }
        let gone = exited.is_some() && controller.api().is_some();
        if gone {
            controller.note_exit();
        }
        if controller.is_shutting_down() {
            return Tick::End;
        }
        if let Some(status) = &exited {
            if gone {
                return Tick::Exited(show_exited(status.as_str()));
            }
        }
        match controller.api() {
            None => {
                self.failures = 0;
                Tick::Idle
            },
            Some(api) => Tick::Sample(api.traffic_sample()),
        }
    }

    /// Takes in the core's traffic, or why it could not be read. The user is
    /// told when it fails the third time in a row.
    pub fn sampled(&mut self, outcome: Result<Traffic, String>) -> (updates: Vec<UiUpdate>)
        ensures
            match outcome {
                Ok(traffic) => final(self).failures == 0 && views(updates@) == traffic_shown(
                    traffic,
                ),
                Err(error) => final(self).failures == one_more(old(self).failures) && views(
                    updates@,
                ) == failure_shown(final(self).failures, error@),
            },
    {
        match outcome {
            Ok(traffic) => {
                self.failures = 0;
                let mut updates: Vec<UiUpdate> = Vec::new();
                updates.push(UiUpdate::Text(TextField::TrafficUpload, format_rate(traffic.up)));
                updates.push(
                    UiUpdate::Text(TextField::TrafficDownload, format_rate(traffic.down)),
                );
                updates.push(UiUpdate::TogglePulse);
                assert(views(updates@) =~= traffic_shown(traffic));
                updates
            },
            Err(error) => {
                self.failures = self.failures.saturating_add(1);
                if self.failures == TOLD_FAILURES {
                    set_error(join2("Live traffic is unavailable: ", error.as_str()).as_str())
                } else {
                    let updates: Vec<UiUpdate> = Vec::new();
                    assert(views(updates@) =~= Seq::empty());
                    updates
                }
            },
        }
    }
}

/// The number of failures in a row after the given number of them.
pub open spec fn failures_after(n: nat) -> u8
    decreases n,
{
    if n == 0 {
        0
    } else {
        one_more(failures_after((n - 1) as nat))
    }
}

proof fn failures_are_counted(n: nat)
    ensures
        failures_after(n) == (if n < 255 {
            n
        } else {
            255
        }),
    decreases n,
{
    if n > 0 {
        failures_are_counted((n - 1) as nat);
    }
}

/// However long the core's traffic cannot be read, the user is told of it
/// once: at the third failure in a row, with its error.
pub proof fn unavailable_traffic_is_told_once(n: nat, error: Seq<char>)
    requires
        n > 0,
    ensures
        n == 3 ==> failure_shown(failures_after(n), error) == error_shown(
            "Live traffic is unavailable: "@ + error,
        ),
        n != 3 ==> failure_shown(failures_after(n), error) == Seq::<UpdateView>::empty(),
{
    failures_are_counted(n);
}

/// A core that has ended by itself is gone from the state, is shown as neither
/// running nor busy, and a start from before its end is not taken in.
pub proof fn ended_core_is_gone<S>(state: ControllerView<S>, generation: u64, status: Seq<char>)
    requires
        state.still_wants(generation),
    ensures
        state.stopped().sidecar is None,
        state.stopped().api is None,
        !state.stopped().still_wants(generation),
        exited_shown(status).contains(UpdateView::Flag(FlagField::CoreRunning, false)),
        exited_shown(status).contains(UpdateView::Flag(FlagField::CoreBusy, false)),
{
    assert(exited_shown(status)[0] == UpdateView::Flag(FlagField::CoreRunning, false));
    assert(exited_shown(status)[1] == UpdateView::Flag(FlagField::CoreBusy, false));
}

/// The traffic is shown as its two rates, the upload as the upload and the
/// download as the download, and each reading turns the sign of life over.
pub proof fn both_rates_are_shown(traffic: Traffic)
    ensures
        last_text(traffic_shown(traffic), TextField::TrafficUpload) == Some(
            rate_text(traffic.up as nat),
        ),
        last_text(traffic_shown(traffic), TextField::TrafficDownload) == Some(
            rate_text(traffic.down as nat),
        ),
        traffic_shown(traffic).filter(|u: UpdateView| u is TogglePulse).len() == 1,
        last_text(traffic_shown(traffic), TextField::ErrorMessage) is None,
        last_flag(traffic_shown(traffic), FlagField::CoreBusy) is None,
        last_flag(traffic_shown(traffic), FlagField::CoreRunning) is None,
{
    reveal_with_fuel(last_text, 4);
    reveal_with_fuel(last_flag, 4);
    reveal(Seq::filter);
    let shown = traffic_shown(traffic);
    let pulse = |u: UpdateView| u is TogglePulse;
    let two = shown.drop_last();
    let one = two.drop_last();
    assert(one.drop_last().len() == 0);
    assert(one.drop_last().filter(pulse).len() == 0);
    assert(one.filter(pulse).len() == 0);
    assert(two.filter(pulse).len() == 0);
}

/// A core that has ended by itself is shown as stopped, with how it ended and
/// without rates.
pub proof fn ended_core_is_shown(status: Seq<char>)
    ensures
        ({
            let shown = exited_shown(status);
            &&& last_flag(shown, FlagField::CoreRunning) == Some(false)
            &&& last_flag(shown, FlagField::CoreBusy) == Some(false)
            &&& last_text(shown, TextField::ErrorMessage) == Some(
                "Mihomo exited unexpectedly ("@ + status + ")"@,
            )
            &&& last_text(shown, TextField::StatusMessage) == Some("Core stopped unexpectedly"@)
            &&& last_text(shown, TextField::TrafficUpload) == Some("—"@)
            &&& last_text(shown, TextField::TrafficDownload) == Some("—"@)
        }),
{
    reveal_with_fuel(last_text, 7);
    reveal_with_fuel(last_flag, 7);
}

/// Failures are counted one by one, up to the largest number that fits.
pub proof fn failures_are_counted_one_by_one(failures: u8)
    ensures
        failures < 255 ==> one_more(failures) == failures + 1,
        failures == 255 ==> one_more(failures) == 255,
{
}

/// The window changes in as many places as there is something to tell.
pub proof fn nothing_more_is_told(traffic: Traffic, status: Seq<char>, failures: u8, error: Seq<char>)
    ensures
        traffic_shown(traffic).len() == 3,
        exited_shown(status).len() == 6,
        failures == 3 ==> failure_shown(failures, error).len() == 1,
        failures != 3 ==> failure_shown(failures, error).len() == 0,
{
}

} // verus!
