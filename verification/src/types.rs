//! The typed snapshot a telegram decodes to, and the errors a malformed
//! telegram yields.
//!
//! Absent data is always `None`: a zero reading and an absent reading are
//! distinct observable states, so nothing is ever defaulted to zero. The
//! three electrical phases and the four sub-meter channels are fixed, named
//! slots, never growable collections.

use vstd::prelude::*;

verus! {

/// A telegram timestamp: two-digit fields taken positionally from the token,
/// plus the daylight-saving flag. Calendar validity is deliberately not
/// checked; the decoder is purely syntactic, as the meter itself is.
#[derive(Clone, Copy, Debug, PartialEq, Eq)]
pub struct Timestamp {
    pub year: u8,
    pub month: u8,
    pub day: u8,
    pub hour: u8,
    pub minute: u8,
    pub second: u8,
    /// True iff daylight-saving (summer) time was flagged.
    pub dst: bool,
}

/// An unsigned fixed-point numeral, exactly as the telegram spelled it:
/// the value is `mantissa / 10^scale`. `12.34` has mantissa 1234, scale 2.
#[derive(Clone, Copy, Debug, PartialEq, Eq)]
pub struct Decimal {
    pub mantissa: u64,
    pub scale: u8,
}

/// Consumption registers for one tariff: energy delivered to and by the
/// client.
#[derive(Clone, Copy, Debug, PartialEq, Eq)]
pub struct MeterReading {
    pub to: Option<Decimal>,
    pub by: Option<Decimal>,
}

/// Per-phase electrical metrics. Every field is independently optional.
#[derive(Clone, Copy, Debug, PartialEq, Eq)]
pub struct Line {
    pub voltage_sags: Option<u64>,
    pub voltage_swells: Option<u64>,
    pub voltage: Option<Decimal>,
    pub current: Option<u64>,
    pub active_power_plus: Option<Decimal>,
    pub active_power_neg: Option<Decimal>,
}

/// An attached sub-meter (gas, water, heat, ...): its device type and its
/// last captured reading.
#[derive(Clone, Copy, Debug, PartialEq, Eq)]
pub struct Slave {
    pub device_type: Option<u64>,
    pub meter_reading: Option<(Timestamp, Decimal)>,
}

/// The full decoded snapshot of one telegram. Rebuilt fresh per telegram;
/// the two tariffs, three phases and four sub-meter channels are fixed slots.
#[derive(Clone, Copy, Debug, PartialEq, Eq)]
pub struct State {
    pub datetime: Option<Timestamp>,
    pub meterreading1: MeterReading,
    pub meterreading2: MeterReading,
    pub tariff_indicator: Option<(u8, u8)>,
    pub power_delivered: Option<Decimal>,
    pub power_received: Option<Decimal>,
    pub power_failures: Option<u64>,
    pub long_power_failures: Option<u64>,
    pub line1: Line,
    pub line2: Line,
    pub line3: Line,
    pub slave1: Slave,
    pub slave2: Slave,
    pub slave3: Slave,
    pub slave4: Slave,
}

/// Why a telegram failed to decode. Each kind is local to one frame and
/// never blocks later frames.
#[derive(Clone, Copy, Debug, PartialEq, Eq)]
pub enum DecodeError {
    /// A start marker was seen but the buffer ended before a complete frame.
    Framing,
    /// The recomputed CRC, rendered as four uppercase hex digits, differs
    /// from the digits found after the end marker.
    ChecksumMismatch { computed: u16, found: (u8, u8, u8, u8) },
    /// A value group of the named reference code had the wrong shape.
    ObisParse { reference: (u8, u8, u8, u8, u8) },
    /// A timestamp token was malformed, inside the line with the named
    /// reference code.
    TimestampFormat { line_reference: Option<(u8, u8, u8, u8, u8)> },
}

/// One recognized OBIS data line, reduced to the field update it stands for.
/// Tariff numbers are 1 or 2, phase numbers 1 to 3, channels 1 to 4.
#[derive(Clone, Copy, Debug, PartialEq, Eq)]
pub enum Object {
    DateTime(Timestamp),
    MeterReadingTo(u8, Decimal),
    MeterReadingBy(u8, Decimal),
    TariffIndicator(u8, u8),
    PowerDelivered(Decimal),
    PowerReceived(Decimal),
    PowerFailures(u64),
    LongPowerFailures(u64),
    VoltageSags(u8, u64),
    VoltageSwells(u8, u64),
    Voltage(u8, Decimal),
    Current(u8, u64),
    ActivePowerPlus(u8, Decimal),
    ActivePowerNeg(u8, Decimal),
    /// `None` when the meter sent an empty device-type group.
    SlaveDeviceType(u8, Option<u64>),
    /// `None` when the meter sent the all-zero placeholder reading.
    SlaveMeterReading(u8, Timestamp, Option<Decimal>),
}

pub open spec fn empty_line() -> Line {
    Line {
        voltage_sags: None,
        voltage_swells: None,
        voltage: None,
        current: None,
        active_power_plus: None,
        active_power_neg: None,
    }
}

pub open spec fn empty_slave() -> Slave {
    Slave { device_type: None, meter_reading: None }
}

pub open spec fn empty_reading() -> MeterReading {
    MeterReading { to: None, by: None }
}

/// The snapshot with every field unset: the fold's starting point.
pub open spec fn empty_state() -> State {
    State {
        datetime: None,
        meterreading1: empty_reading(),
        meterreading2: empty_reading(),
        tariff_indicator: None,
        power_delivered: None,
        power_received: None,
        power_failures: None,
        long_power_failures: None,
        line1: empty_line(),
        line2: empty_line(),
        line3: empty_line(),
        slave1: empty_slave(),
        slave2: empty_slave(),
        slave3: empty_slave(),
        slave4: empty_slave(),
    }
}

pub open spec fn line_of(s: State, ph: u8) -> Line {
    if ph == 1 {
        s.line1
    } else if ph == 2 {
        s.line2
    } else {
        s.line3
    }
}

pub open spec fn with_line(s: State, ph: u8, l: Line) -> State {
    if ph == 1 {
        State { line1: l, ..s }
    } else if ph == 2 {
        State { line2: l, ..s }
    } else if ph == 3 {
        State { line3: l, ..s }
    } else {
        s
    }
}

pub open spec fn slave_of(s: State, ch: u8) -> Slave {
    if ch == 1 {
        s.slave1
    } else if ch == 2 {
        s.slave2
    } else if ch == 3 {
        s.slave3
    } else {
        s.slave4
    }
}

pub open spec fn with_slave(s: State, ch: u8, sl: Slave) -> State {
    if ch == 1 {
        State { slave1: sl, ..s }
    } else if ch == 2 {
        State { slave2: sl, ..s }
    } else if ch == 3 {
        State { slave3: sl, ..s }
    } else if ch == 4 {
        State { slave4: sl, ..s }
    } else {
        s
    }
}

/// One step of the state builder: assign the field the object targets,
/// leave every other field as it was. Applying a later object to the same
/// field overwrites the earlier value: last write wins.
pub open spec fn apply_object(s: State, o: Object) -> State {
    match o {
        Object::DateTime(t) => State { datetime: Some(t), ..s },
        Object::MeterReadingTo(t, d) => {
            if t == 1 {
                State { meterreading1: MeterReading { to: Some(d), ..s.meterreading1 }, ..s }
            } else if t == 2 {
                State { meterreading2: MeterReading { to: Some(d), ..s.meterreading2 }, ..s }
            } else {
                s
            }
        },
        Object::MeterReadingBy(t, d) => {
            if t == 1 {
                State { meterreading1: MeterReading { by: Some(d), ..s.meterreading1 }, ..s }
            } else if t == 2 {
                State { meterreading2: MeterReading { by: Some(d), ..s.meterreading2 }, ..s }
            } else {
                s
            }
        },
        Object::TariffIndicator(a, b) => State { tariff_indicator: Some((a, b)), ..s },
        Object::PowerDelivered(d) => State { power_delivered: Some(d), ..s },
        Object::PowerReceived(d) => State { power_received: Some(d), ..s },
        Object::PowerFailures(n) => State { power_failures: Some(n), ..s },
        Object::LongPowerFailures(n) => State { long_power_failures: Some(n), ..s },
        Object::VoltageSags(ph, n) => {
            if 1 <= ph <= 3 {
                with_line(s, ph, Line { voltage_sags: Some(n), ..line_of(s, ph) })
            } else {
                s
            }
        },
        Object::VoltageSwells(ph, n) => {
            if 1 <= ph <= 3 {
                with_line(s, ph, Line { voltage_swells: Some(n), ..line_of(s, ph) })
            } else {
                s
            }
        },
        Object::Voltage(ph, d) => {
            if 1 <= ph <= 3 {
                with_line(s, ph, Line { voltage: Some(d), ..line_of(s, ph) })
            } else {
                s
            }
        },
        Object::Current(ph, n) => {
            if 1 <= ph <= 3 {
                with_line(s, ph, Line { current: Some(n), ..line_of(s, ph) })
            } else {
                s
            }
        },
        Object::ActivePowerPlus(ph, d) => {
            if 1 <= ph <= 3 {
                with_line(s, ph, Line { active_power_plus: Some(d), ..line_of(s, ph) })
            } else {
                s
            }
        },
        Object::ActivePowerNeg(ph, d) => {
            if 1 <= ph <= 3 {
                with_line(s, ph, Line { active_power_neg: Some(d), ..line_of(s, ph) })
            } else {
                s
            }
        },
        Object::SlaveDeviceType(ch, n) => {
            if 1 <= ch <= 4 {
                with_slave(s, ch, Slave { device_type: n, ..slave_of(s, ch) })
            } else {
                s
            }
        },
        Object::SlaveMeterReading(ch, t, d) => {
            if 1 <= ch <= 4 {
                with_slave(
                    s,
                    ch,
                    Slave {
                        meter_reading: match d {
                            Some(d) => Some((t, d)),
                            None => None,
                        },
                        ..slave_of(s, ch)
                    },
                )
            } else {
                s
            }
        },
    }
}

impl State {
    /// The snapshot with every field unset.
    pub fn new_empty() -> (s: State)
        ensures
            s == empty_state(),
    {
        let l = Line {
            voltage_sags: None,
            voltage_swells: None,
            voltage: None,
            current: None,
            active_power_plus: None,
            active_power_neg: None,
        };
        let sl = Slave { device_type: None, meter_reading: None };
        let mr = MeterReading { to: None, by: None };
        State {
            datetime: None,
            meterreading1: mr,
            meterreading2: mr,
            tariff_indicator: None,
            power_delivered: None,
            power_received: None,
            power_failures: None,
            long_power_failures: None,
            line1: l,
            line2: l,
            line3: l,
            slave1: sl,
            slave2: sl,
            slave3: sl,
            slave4: sl,
        }
    }

    /// Fold one parsed object into the snapshot.
    pub fn apply(&mut self, o: Object)
        ensures
            *final(self) == apply_object(*old(self), o),
    {
        match o {
            Object::DateTime(t) => {
                self.datetime = Some(t);
            },
            Object::MeterReadingTo(t, d) => {
                if t == 1 {
                    self.meterreading1.to = Some(d);
                } else if t == 2 {
                    self.meterreading2.to = Some(d);
                }
            },
            Object::MeterReadingBy(t, d) => {
                if t == 1 {
                    self.meterreading1.by = Some(d);
                } else if t == 2 {
                    self.meterreading2.by = Some(d);
                }
            },
            Object::TariffIndicator(a, b) => {
                self.tariff_indicator = Some((a, b));
            },
            Object::PowerDelivered(d) => {
                self.power_delivered = Some(d);
            },
            Object::PowerReceived(d) => {
                self.power_received = Some(d);
            },
            Object::PowerFailures(n) => {
                self.power_failures = Some(n);
            },
            Object::LongPowerFailures(n) => {
                self.long_power_failures = Some(n);
            },
            Object::VoltageSags(ph, n) => {
                if ph == 1 {
                    self.line1.voltage_sags = Some(n);
                } else if ph == 2 {
                    self.line2.voltage_sags = Some(n);
                } else if ph == 3 {
                    self.line3.voltage_sags = Some(n);
                }
            },
            Object::VoltageSwells(ph, n) => {
                if ph == 1 {
                    self.line1.voltage_swells = Some(n);
                } else if ph == 2 {
                    self.line2.voltage_swells = Some(n);
                } else if ph == 3 {
                    self.line3.voltage_swells = Some(n);
                }
            },
            Object::Voltage(ph, d) => {
                if ph == 1 {
                    self.line1.voltage = Some(d);
                } else if ph == 2 {
                    self.line2.voltage = Some(d);
                } else if ph == 3 {
                    self.line3.voltage = Some(d);
                }
            },
            Object::Current(ph, n) => {
                if ph == 1 {
                    self.line1.current = Some(n);
                } else if ph == 2 {
                    self.line2.current = Some(n);
                } else if ph == 3 {
                    self.line3.current = Some(n);
                }
            },
            Object::ActivePowerPlus(ph, d) => {
                if ph == 1 {
                    self.line1.active_power_plus = Some(d);
                } else if ph == 2 {
                    self.line2.active_power_plus = Some(d);
                } else if ph == 3 {
                    self.line3.active_power_plus = Some(d);
                }
            },
            Object::ActivePowerNeg(ph, d) => {
                if ph == 1 {
                    self.line1.active_power_neg = Some(d);
                } else if ph == 2 {
                    self.line2.active_power_neg = Some(d);
                } else if ph == 3 {
                    self.line3.active_power_neg = Some(d);
                }
            },
            Object::SlaveDeviceType(ch, n) => {
                if ch == 1 {
                    self.slave1.device_type = n;
                } else if ch == 2 {
                    self.slave2.device_type = n;
                } else if ch == 3 {
                    self.slave3.device_type = n;
                } else if ch == 4 {
                    self.slave4.device_type = n;
                }
            },
            Object::SlaveMeterReading(ch, t, d) => {
                let r = match d {
                    Some(d) => Some((t, d)),
                    None => None,
                };
                if ch == 1 {
                    self.slave1.meter_reading = r;
                } else if ch == 2 {
                    self.slave2.meter_reading = r;
                } else if ch == 3 {
                    self.slave3.meter_reading = r;
                } else if ch == 4 {
                    self.slave4.meter_reading = r;
                }
            },
        }
    }
}

} // verus!
