//! The state that is shown: both devices and a log of what arrived. It is the
//! single consumer of the decoded readings and the only writer of the devices.
use vstd::prelude::*;
use vstd::string::*;
use crate::ingest::SensorData;
use crate::power::power_after_set;
use crate::reading::{plain_text, push_plain};
use crate::socket::Socket;
use crate::temperature::temperature_after_set;
use crate::termometer::Termometer;

verus! {

/// What an `App` holds, as values.
pub ghost struct AppView {
    pub running: bool,
    pub temperature: int,
    pub power: int,
    pub messages: Seq<Seq<char>>,
}

/// The log line for a temperature that arrived.
pub open spec fn temperature_note(t: int) -> Seq<char> {
    "Temperature set to "@ + plain_text(t)
}

/// The log line for a power draw that arrived.
pub open spec fn power_note(p: int) -> Seq<char> {
    "Power set to "@ + plain_text(p)
}

/// The state after `data` arrived in state `v`: a reading of a device is
/// offered to its `set`, and every payload adds a line to the log.
pub open spec fn after_data(v: AppView, data: SensorData) -> AppView {
    match data {
        SensorData::Temperature(t) => AppView {
            running: v.running,
            temperature: temperature_after_set(v.temperature, t as int),
            power: v.power,
            messages: v.messages.push(temperature_note(t as int)),
        },
        SensorData::Power(p) => AppView {
            running: v.running,
            temperature: v.temperature,
            power: power_after_set(v.power, p as int),
            messages: v.messages.push(power_note(p as int)),
        },
        SensorData::Unknown => AppView {
            running: v.running,
            temperature: v.temperature,
            power: v.power,
            messages: v.messages.push("Unknown data received."@),
        },
    }
}

/// A key pressed at the terminal, as far as the display cares.
#[derive(Debug, Clone, Copy, PartialEq, Eq, Structural)]
pub enum KeyPress {
    Esc,
    Char(char),
    Other,
}

/// Esc and `q` quit, with or without Control; Control with `c` or `C` does too.
pub open spec fn is_quit_key(control: bool, key: KeyPress) -> bool {
    key == KeyPress::Esc || key == KeyPress::Char('q') || (control && (key == KeyPress::Char('c')
        || key == KeyPress::Char('C')))
}

/// The devices as they were last reported, and the log.
pub struct App {
    running: bool,
    messages: Vec<String>,
    termometer: Termometer,
    socket: Socket,
}

impl View for App {
    type V = AppView;

    closed spec fn view(&self) -> AppView {
        AppView {
            running: self.running,
            temperature: self.termometer@,
            power: self.socket@,
            messages: self.messages@.map_values(|m: String| m@),
        }
    }
}

impl App {
    pub fn new(t: Termometer, s: Socket) -> (r: Self)
        ensures
            r@.running,
            r@.temperature == t@,
            r@.power == s@,
            r@.messages == seq!["40 градусов"@, "50 ВТ"@],
    {
        let messages = vec![String::from_str("40 градусов"), String::from_str("50 ВТ")];
        let r = Self { running: true, messages, termometer: t, socket: s };
        assert(r@.messages =~= seq!["40 градусов"@, "50 ВТ"@]);
        r
    }

    /// Applies one decoded payload.
    pub fn process_sensor_data(&mut self, data: &SensorData)
        ensures
            final(self)@ == after_data(old(self)@, *data),
    {
        match *data {
            SensorData::Temperature(temp) => {
                self.termometer.temperature_mut().set(temp);
                let mut note = String::from_str("Temperature set to ");
                push_plain(&mut note, temp);
                self.messages.push(note);
            },
            SensorData::Power(power) => {
                self.socket.power_mut().set(power);
                let mut note = String::from_str("Power set to ");
                push_plain(&mut note, power);
                self.messages.push(note);
            },
            SensorData::Unknown => {
                self.messages.push(String::from_str("Unknown data received."));
            },
        }
        assert(self@.messages =~= after_data(old(self)@, *data).messages);
    }

    /// Asks the display loop to stop.
    pub fn quit(&mut self)
        ensures
            final(self)@ == (AppView { running: false, ..old(self)@ }),
    {
        self.running = false;
    }

    /// Quits on a quit key; any other key changes nothing.
    pub fn on_key_event(&mut self, control: bool, key: KeyPress)
        ensures
            final(self)@ == (AppView {
                running: old(self)@.running && !is_quit_key(control, key),
                ..old(self)@
            }),
    {
        let quits = match key {
            KeyPress::Esc => true,
            KeyPress::Char(c) => c == 'q' || (control && (c == 'c' || c == 'C')),
            KeyPress::Other => false,
        };
        if quits {
            self.quit();
        }
    }

    pub fn is_running(&self) -> (r: bool)
        ensures
            r == self@.running,
    {
        self.running
    }

    pub fn termometer(&self) -> (r: &Termometer)
        ensures
            r@ == self@.temperature,
    {
        &self.termometer
    }

    pub fn socket(&self) -> (r: &Socket)
        ensures
            r@ == self@.power,
    {
        &self.socket
    }

    pub fn messages(&self) -> (r: &Vec<String>)
        ensures
            r@.map_values(|m: String| m@) == self@.messages,
    {
        &self.messages
    }
}

} // verus!
