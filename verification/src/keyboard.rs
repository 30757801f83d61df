//! Keyboard HID device state: the current input report and the LED
//! sink driven by the host's output reports.

use vstd::prelude::*;
use crate::key_code::KbHidReport;
use crate::key_code::empty_report;

verus! {

/// A trait to manage keyboard LEDs.
///
/// `()` implements this trait if you don't care about LEDs.
pub trait Leds {
    /// Sets the num lock state.
    fn num_lock(&mut self, status: bool) {
    }

    /// Sets the caps lock state.
    fn caps_lock(&mut self, status: bool) {
    }

    /// Sets the scroll lock state.
    fn scroll_lock(&mut self, status: bool) {
    }

    /// Sets the compose state.
    fn compose(&mut self, status: bool) {
    }

    /// Sets the kana state.
    fn kana(&mut self, status: bool) {
    }
}

impl Leds for () {

}

/// The HID report type of a control request.
#[derive(Debug, Clone, Copy, PartialEq, Eq, Structural)]
pub enum ReportType {
    /// A device to host input report.
    Input,
    /// A host to device output report.
    Output,
    /// A feature report.
    Feature,
}

/// A keyboard HID device.
pub struct Keyboard<L> {
    report: KbHidReport,
    leds: L,
}

impl<L: Leds> Keyboard<L> {
    /// The bytes of the current input report.
    pub closed spec fn spec_report(&self) -> Seq<u8> {
        self.report@
    }

    /// The LED sink.
    pub closed spec fn spec_leds(&self) -> L {
        self.leds
    }

    /// Creates a new `Keyboard` object.
    pub fn new(leds: L) -> (r: Keyboard<L>)
        ensures
            r.spec_report() == empty_report(),
            r.spec_leds() == leds,
    {
        Keyboard { report: KbHidReport::new(), leds }
    }

    /// Set the current keyboard HID report. Returns `true` if it is
    /// modified.
    pub fn set_keyboard_report(&mut self, report: KbHidReport) -> (r: bool)
        ensures
            r == (report@ != old(self).spec_report()),
            final(self).spec_report() == report@,
            final(self).spec_leds() == old(self).spec_leds(),
    {
        if report.same_as(&self.report) {
            false
        } else {
            self.report = report;
            true
        }
    }

    /// Returns the underlying leds object.
    pub fn leds_mut(&mut self) -> (r: &mut L)
        ensures
            *r == old(self).spec_leds(),
            final(self).spec_leds() == *final(r),
            final(self).spec_report() == old(self).spec_report(),
    {
        &mut self.leds
    }

    /// Answers a `get_report` request: the current input report, or an
    /// error for any other report type.
    pub fn get_report(&self, report_type: ReportType, report_id: u8) -> (r: Result<&[u8], ()>)
        ensures
            report_type is Input ==> (r matches Ok(bytes) && bytes@ == self.spec_report()),
            !(report_type is Input) ==> r is Err,
    {
        match report_type {
            ReportType::Input => Ok(self.report.as_bytes()),
            _ => Err(()),
        }
    }

    /// Handles a `set_report` request: a one-byte output report for
    /// report 0 carries the LED bitmap (num lock bit 0, caps lock bit
    /// 1, scroll lock bit 2, compose bit 3, kana bit 4), handed bit by
    /// bit to the LED sink. Anything else is rejected.
    pub fn set_report(&mut self, report_type: ReportType, report_id: u8, data: &[u8]) -> (r:
        Result<(), ()>)
        ensures
            r is Ok <==> (report_type is Output && report_id == 0 && data@.len() == 1),
            final(self).spec_report() == old(self).spec_report(),
    {
        let is_led_report = match report_type {
            ReportType::Output => report_id == 0 && data.len() == 1,
            _ => false,
        };
        if is_led_report {
            let d = data[0];
            self.leds.num_lock(d & 1 != 0);
            self.leds.caps_lock(d & (1u8 << 1) != 0);
            self.leds.scroll_lock(d & (1u8 << 2) != 0);
            self.leds.compose(d & (1u8 << 3) != 0);
            self.leds.kana(d & (1u8 << 4) != 0);
            Ok(())
        } else {
            Err(())
        }
    }
}

} // verus!
