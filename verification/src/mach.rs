//! The milling machine simulator.
//!
//! One command mutates the machine state under a fixed evaluation order:
//! end-program gating, modal updates, coordinate resolution, movement
//! edge detection, spindle action, coolant action, movement dispatch,
//! and the spurious tool change check.  Any violation of the machine's
//! safety rules stops the run with a verbatim message.

use vstd::prelude::*;
use crate::actions::{Command, CommandV, CoordSwitch, Global, Movement, SpindleAction, WaterAction};
use crate::errors::{LineError, SimpleError};
use crate::geometry::{dist_squared, rounded_sqrt, spec_rsqrt};
use crate::render::{Circle, Line, Render};
use crate::text::{dec_u64, pad3_u64, spec_dec_nat};
use crate::types::{spec_um_text, Micrometer};

verus! {

/// The machine's configured limits.
#[derive(Clone, Copy, PartialEq, Eq, Structural, Debug)]
pub struct MachineConfig {
    /// The safe Z height for the start and end of a machining cycle.
    pub safe_z: Micrometer,
    /// The smallest allowed `S` value.
    pub min_speed: u16,
    /// The largest allowed `S` value.
    pub max_speed: u16,
    /// The smallest allowed `F` value.
    pub min_feed: u16,
    /// The largest allowed `F` value.
    pub max_feed: u16,
}

/// The stock configuration: safe Z at 150 mm, speed 500 to 5000,
/// feed 10 to 400.
pub open spec fn spec_default_config() -> MachineConfig {
    MachineConfig {
        safe_z: Micrometer(150_000),
        min_speed: 500,
        max_speed: 5000,
        min_feed: 10,
        max_feed: 400,
    }
}

impl Default for MachineConfig {
    /// The stock configuration.
    fn default() -> (r: MachineConfig)
        ensures
            r == spec_default_config(),
    {
        MachineConfig {
            safe_z: Micrometer(150_000),
            min_speed: 500,
            max_speed: 5000,
            min_feed: 10,
            max_feed: 400,
        }
    }
}

/// The machine simulator; `R` is the drawing sink it drives.
#[derive(Debug)]
pub struct Machine<R: Render> {
    pub cfg: MachineConfig,
    pub render: Option<R>,

    pub movement: Option<Movement>,

    pub x: Option<Micrometer>,
    pub y: Option<Micrometer>,
    pub z: Option<Micrometer>,
    pub speed: Option<u16>,
    pub feed: Option<u16>,
    pub tool: Option<u8>,

    pub spindle_on: bool,
    pub water_on: bool,

    pub relative: bool,
}

/// The ghost image of the machine state; the drawing sink is no part of
/// it.
#[verifier::ext_equal]
pub ghost struct MachineV {
    pub cfg: MachineConfig,
    pub movement: Option<Movement>,
    pub x: Option<int>,
    pub y: Option<int>,
    pub z: Option<int>,
    pub speed: Option<u16>,
    pub feed: Option<u16>,
    pub tool: Option<u8>,
    pub spindle_on: bool,
    pub water_on: bool,
    pub relative: bool,
}

/// The ghost image of an optional length.
pub open spec fn spec_opt_um(m: Option<Micrometer>) -> Option<int> {
    match m {
        Some(um) => Some(um.0 as int),
        None => None,
    }
}

impl<R: Render> View for Machine<R> {
    type V = MachineV;

    open spec fn view(&self) -> MachineV {
        MachineV {
            cfg: self.cfg,
            movement: self.movement,
            x: spec_opt_um(self.x),
            y: spec_opt_um(self.y),
            z: spec_opt_um(self.z),
            speed: self.speed,
            feed: self.feed,
            tool: self.tool,
            spindle_on: self.spindle_on,
            water_on: self.water_on,
            relative: self.relative,
        }
    }
}

/// The machine state before any command: positions undefined, spindle
/// and coolant off, absolute coordinates.
pub open spec fn spec_fresh_machine(cfg: MachineConfig) -> MachineV {
    MachineV {
        cfg,
        movement: None,
        x: None,
        y: None,
        z: None,
        speed: None,
        feed: None,
        tool: None,
        spindle_on: false,
        water_on: false,
        relative: false,
    }
}

/// A modal value replaced by a provided new value.
pub open spec fn spec_upd<T>(o: Option<T>, n: Option<T>) -> Option<T> {
    if n is Some {
        n
    } else {
        o
    }
}

/// The current Z height, with an undefined Z standing at safe Z.
pub open spec fn spec_z_or_safe(m: MachineV) -> int {
    match m.z {
        Some(z) => z,
        None => m.cfg.safe_z.0 as int,
    }
}

/// A value within the machine's length representation.
pub open spec fn spec_in_um(v: int) -> bool {
    i64::MIN <= v <= i64::MAX
}

/// The message for a parameter that must not appear here.
pub open spec fn spec_prohibit_msg(name: Seq<char>) -> Seq<char> {
    "Parameter '"@ + name + "' is dangerous here"@
}

/// The message for a parameter that must appear here.
pub open spec fn spec_require_msg(name: Seq<char>) -> Seq<char> {
    "Required parameter '"@ + name + "'"@
}

/// The speed or feed value that bounds are checked against.
pub open spec fn spec_u16_or0(v: Option<u16>) -> u16 {
    match v {
        Some(x) => x,
        None => 0,
    }
}

/// The first cutting precondition a machine state violates, if any:
/// spindle and coolant on, speed and feed within bounds, a fully defined
/// position, and a tool.
#[verifier::opaque]
pub open spec fn spec_prepare_cut(m: MachineV) -> Option<Seq<char>> {
    let sp = spec_u16_or0(m.speed);
    let fd = spec_u16_or0(m.feed);
    if !m.spindle_on {
        Some("Trying to cut with spindle off"@)
    } else if !m.water_on {
        Some("Trying to cut without coolant"@)
    } else if sp < m.cfg.min_speed {
        Some("Speed "@ + spec_dec_nat(sp as nat) + " is too low"@)
    } else if sp > m.cfg.max_speed {
        Some("Speed "@ + spec_dec_nat(sp as nat) + " is too high"@)
    } else if fd < m.cfg.min_feed {
        Some("Feed "@ + spec_dec_nat(fd as nat) + " is too low"@)
    } else if fd > m.cfg.max_feed {
        Some("Feed "@ + spec_dec_nat(fd as nat) + " is too high"@)
    } else if !(m.x is Some && m.y is Some && m.z is Some) {
        Some("Trying to cut from undefined position"@)
    } else if m.tool is None {
        Some("Trying to cut with no tool"@)
    } else {
        None
    }
}

/// The command's axis targets resolved against the current position:
/// absolute targets as given; relative targets offset by the current
/// coordinates, which must all be defined and whose sums must fit.
#[verifier::opaque]
pub open spec fn spec_resolve(m: MachineV, c: CommandV) -> Result<
    (Option<int>, Option<int>, Option<int>),
    Seq<char>,
> {
    if m.relative {
        if !(m.x is Some && m.y is Some && m.z is Some) {
            Err("Relative coordinates can only be used with fully defined position"@)
        } else {
            let rx = match c.raw_x {
                Some(a) => Some(a + m.x->Some_0),
                None => None,
            };
            let ry = match c.raw_y {
                Some(a) => Some(a + m.y->Some_0),
                None => None,
            };
            let rz = match c.raw_z {
                Some(a) => Some(a + m.z->Some_0),
                None => None,
            };
            if (rx matches Some(v) && !spec_in_um(v)) || (ry matches Some(v) && !spec_in_um(v))
                || (rz matches Some(v) && !spec_in_um(v)) {
                Err("Coordinate overflow"@)
            } else {
                Ok((rx, ry, rz))
            }
        }
    } else {
        Ok((c.raw_x, c.raw_y, c.raw_z))
    }
}

/// The spindle phase of a command.
#[verifier::opaque]
pub open spec fn spec_spindle_phase(
    m: MachineV,
    c: CommandV,
    new_move: bool,
    cox: Option<int>,
    coy: Option<int>,
    coz: Option<int>,
) -> Result<MachineV, Seq<char>> {
    match c.spindle_action {
        None => Ok(m),
        Some(SpindleAction::SpindleOnCCW) => Err("Trying to start spindle backwards"@),
        Some(SpindleAction::SpindleOnCW) => {
            if !m.water_on {
                Err("Trying to start spindle without ensuring coolant flow"@)
            } else if m.speed is None {
                Err("Trying to start spindle without any speed"@)
            } else {
                Ok(MachineV { spindle_on: true, ..m })
            }
        },
        Some(SpindleAction::SpindleOff) => {
            if new_move {
                Err("Trying to turn off spindle while moving"@)
            } else if cox is Some {
                Err(spec_prohibit_msg("X"@))
            } else if coy is Some {
                Err(spec_prohibit_msg("Y"@))
            } else if coz is Some {
                Err(spec_prohibit_msg("Z"@))
            } else if c.i is Some {
                Err(spec_prohibit_msg("I"@))
            } else if c.j is Some {
                Err(spec_prohibit_msg("J"@))
            } else {
                Ok(MachineV { spindle_on: false, speed: None, ..m })
            }
        },
    }
}

/// The coolant phase of a command.
#[verifier::opaque]
pub open spec fn spec_water_phase(
    m: MachineV,
    c: CommandV,
    new_move: bool,
    cox: Option<int>,
    coy: Option<int>,
    coz: Option<int>,
) -> Result<MachineV, Seq<char>> {
    match c.water_action {
        None => Ok(m),
        Some(WaterAction::WaterOn) => Ok(MachineV { water_on: true, ..m }),
        Some(WaterAction::WaterOff) => {
            if new_move {
                Err("Trying to turn off coolant while moving"@)
            } else if m.spindle_on {
                Err("Coolant turned off while spindle still running"@)
            } else if cox is Some {
                Err(spec_prohibit_msg("X"@))
            } else if coy is Some {
                Err(spec_prohibit_msg("Y"@))
            } else if coz is Some {
                Err(spec_prohibit_msg("Z"@))
            } else if c.i is Some {
                Err(spec_prohibit_msg("I"@))
            } else if c.j is Some {
                Err(spec_prohibit_msg("J"@))
            } else {
                Ok(MachineV { water_on: false, ..m })
            }
        },
    }
}

/// The message for an arc whose endpoint is off the circle.
pub open spec fn spec_circle_msg(r: int, sx: int, sy: int) -> Seq<char> {
    "Circle end point not on the circle (radius = "@ + spec_um_text(r) + ", start at ("@
        + spec_um_text(sx) + ", "@ + spec_um_text(sy) + "))"@
}

/// An arc move: cutting preconditions, exact center arithmetic, and the
/// radius equality at micrometer precision.  On success the position
/// moves to the endpoint.
#[verifier::opaque]
pub open spec fn spec_circle(m: MachineV, iv: int, jv: int, xv: int, yv: int) -> Result<
    MachineV,
    Seq<char>,
> {
    match spec_prepare_cut(m) {
        Some(e) => Err(e),
        None => {
            let sx = m.x->Some_0;
            let sy = m.y->Some_0;
            let cx = sx + iv;
            let cy = sy + jv;
            if !spec_in_um(cx) || !spec_in_um(cy) || !spec_in_um(xv - (sx + iv)) || !spec_in_um(
                yv - (sy + jv),
            ) {
                Err("Coordinate overflow"@)
            } else {
                let ex = xv - cx;
                let ey = yv - cy;
                let r_start = spec_rsqrt(iv * iv + jv * jv);
                let r_end = spec_rsqrt(ex * ex + ey * ey);
                if r_end != r_start {
                    Err(spec_circle_msg(r_start, sx, sy))
                } else {
                    Ok(MachineV { x: Some(xv), y: Some(yv), ..m })
                }
            }
        },
    }
}

/// The movement dispatch of a command.  The returned flag says that a
/// tool change ran.  Movement runs only when a movement mode is current
/// and the command either switches the mode or names an axis target;
/// otherwise no axis or center parameter may appear.
#[verifier::opaque]
pub open spec fn spec_dispatch(
    m: MachineV,
    c: CommandV,
    new_move: bool,
    cox: Option<int>,
    coy: Option<int>,
    coz: Option<int>,
) -> Result<(MachineV, bool), Seq<char>> {
    let run = m.movement is Some && (new_move || cox is Some || coy is Some || coz is Some);
    if !run {
        if cox is Some {
            Err(spec_prohibit_msg("X"@))
        } else if coy is Some {
            Err(spec_prohibit_msg("Y"@))
        } else if coz is Some {
            Err(spec_prohibit_msg("Z"@))
        } else if c.i is Some {
            Err(spec_prohibit_msg("I"@))
        } else if c.j is Some {
            Err(spec_prohibit_msg("J"@))
        } else {
            Ok((m, false))
        }
    } else {
        match m.movement->Some_0 {
            Movement::FastLine => {
                if new_move && c.tool is Some {
                    Err(spec_prohibit_msg("D"@))
                } else if c.i is Some {
                    Err(spec_prohibit_msg("I"@))
                } else if c.j is Some {
                    Err(spec_prohibit_msg("J"@))
                } else if m.z is None {
                    if cox is Some {
                        Err(spec_prohibit_msg("X"@))
                    } else if coy is Some {
                        Err(spec_prohibit_msg("Y"@))
                    } else {
                        match coz {
                            None => Err(spec_require_msg("Z"@)),
                            Some(z) => if z != m.cfg.safe_z.0 as int {
                                Err("First movement should be to safe Z height"@)
                            } else {
                                Ok((MachineV { z: Some(z), ..m }, false))
                            },
                        }
                    }
                } else if m.x is None || m.y is None {
                    let z2 = spec_upd(m.z, coz);
                    if z2->Some_0 < m.cfg.safe_z.0 as int {
                        Err("Unsafe movement without fully defining the position"@)
                    } else {
                        Ok(
                            (
                                MachineV {
                                    x: spec_upd(m.x, cox),
                                    y: spec_upd(m.y, coy),
                                    z: z2,
                                    ..m
                                },
                                false,
                            ),
                        )
                    }
                } else {
                    Ok(
                        (
                            MachineV {
                                x: spec_upd(m.x, cox),
                                y: spec_upd(m.y, coy),
                                z: spec_upd(m.z, coz),
                                ..m
                            },
                            false,
                        ),
                    )
                }
            },
            Movement::Line => {
                if c.tool is Some {
                    Err(spec_prohibit_msg("D"@))
                } else if c.i is Some {
                    Err(spec_prohibit_msg("I"@))
                } else if c.j is Some {
                    Err(spec_prohibit_msg("J"@))
                } else {
                    match spec_prepare_cut(m) {
                        Some(e) => Err(e),
                        None => Ok(
                            (
                                MachineV {
                                    x: spec_upd(m.x, cox),
                                    y: spec_upd(m.y, coy),
                                    z: spec_upd(m.z, coz),
                                    ..m
                                },
                                false,
                            ),
                        ),
                    }
                }
            },
            Movement::CircleCW | Movement::CircleCCW => {
                if c.tool is Some {
                    Err(spec_prohibit_msg("D"@))
                } else if coz is Some {
                    Err(spec_prohibit_msg("Z"@))
                } else if c.i is None {
                    Err(spec_require_msg("I"@))
                } else if c.j is None {
                    Err(spec_require_msg("J"@))
                } else if cox is None {
                    Err(spec_require_msg("X"@))
                } else if coy is None {
                    Err(spec_require_msg("Y"@))
                } else {
                    match spec_circle(m, c.i->Some_0, c.j->Some_0, cox->Some_0, coy->Some_0) {
                        Ok(m2) => Ok((m2, false)),
                        Err(e) => Err(e),
                    }
                }
            },
            Movement::ToolChange => {
                if c.tool is None {
                    Err(spec_require_msg("D"@))
                } else if cox is Some {
                    Err(spec_prohibit_msg("X"@))
                } else if coy is Some {
                    Err(spec_prohibit_msg("Y"@))
                } else if coz is Some {
                    Err(spec_prohibit_msg("Z"@))
                } else if c.i is Some {
                    Err(spec_prohibit_msg("I"@))
                } else if c.j is Some {
                    Err(spec_prohibit_msg("J"@))
                } else if m.spindle_on || m.water_on {
                    Err("Turn off spindle and coolant before performing tool change"@)
                } else if spec_z_or_safe(m) < m.cfg.safe_z.0 as int {
                    Err("Must be high enough to perform tool change"@)
                } else {
                    Ok(
                        (
                            MachineV {
                                spindle_on: false,
                                water_on: false,
                                speed: None,
                                feed: None,
                                movement: None,
                                z: None,
                                ..m
                            },
                            true,
                        ),
                    )
                }
            },
            Movement::BuiltinCycle(_) => {
                if c.tool is Some {
                    Err(spec_prohibit_msg("D"@))
                } else {
                    match spec_prepare_cut(m) {
                        Some(e) => Err(e),
                        None => Ok((MachineV { movement: None, ..m }, false)),
                    }
                }
            },
        }
    }
}

/// One command against a machine state: the new state, or the message of
/// the first rule the command violates.
pub open spec fn spec_step(m: MachineV, c: CommandV) -> Result<MachineV, Seq<char>> {
    if c.global == Some(Global::EndProgram) && m.spindle_on {
        Err("Ending program with spindle on"@)
    } else if c.global == Some(Global::EndProgram) && m.water_on {
        Err("Ending program with coolant on"@)
    } else if c.global == Some(Global::EndProgram) && spec_z_or_safe(m) < m.cfg.safe_z.0 as int {
        Err("Ending program with too low Z"@)
    } else {
        let tool_changed = c.tool is Some && m.tool is Some;
        let m1 = MachineV {
            speed: spec_upd(m.speed, c.speed),
            feed: spec_upd(m.feed, c.feed),
            tool: spec_upd(m.tool, c.tool),
            ..m
        };
        let m2 = match c.coord_switch {
            Some(CoordSwitch::Absolute) => MachineV { relative: false, ..m1 },
            Some(CoordSwitch::Relative) => MachineV { relative: true, ..m1 },
            None => m1,
        };
        match spec_resolve(m2, c) {
            Err(e) => Err(e),
            Ok((cox, coy, coz)) => {
                let new_move = c.movement is Some;
                let m3 = MachineV { movement: spec_upd(m2.movement, c.movement), ..m2 };
                match spec_spindle_phase(m3, c, new_move, cox, coy, coz) {
                    Err(e) => Err(e),
                    Ok(m4) => match spec_water_phase(m4, c, new_move, cox, coy, coz) {
                        Err(e) => Err(e),
                        Ok(m5) => match spec_dispatch(m5, c, new_move, cox, coy, coz) {
                            Err(e) => Err(e),
                            Ok((m6, was_tc)) => {
                                if tool_changed && !was_tc {
                                    Err("Tool change without stopping"@)
                                } else {
                                    Ok(m6)
                                }
                            },
                        },
                    },
                }
            },
        }
    }
}

/// Radius equality law: an arc move on a machine that is ready to cut,
/// whose center and endpoint arithmetic stays in range, succeeds exactly
/// when the micrometer-rounded radius at the start point equals the
/// micrometer-rounded radius at the endpoint.
pub proof fn lemma_radius_equality(m: MachineV, iv: int, jv: int, xv: int, yv: int)
    requires
        spec_prepare_cut(m) is None,
        spec_in_um(m.x->Some_0 + iv),
        spec_in_um(m.y->Some_0 + jv),
        spec_in_um(xv - (m.x->Some_0 + iv)),
        spec_in_um(yv - (m.y->Some_0 + jv)),
    ensures
        spec_circle(m, iv, jv, xv, yv) is Ok <==> spec_rsqrt(iv * iv + jv * jv) == spec_rsqrt(
            (xv - (m.x->Some_0 + iv)) * (xv - (m.x->Some_0 + iv)) + (yv - (m.y->Some_0 + jv)) * (yv
                - (m.y->Some_0 + jv)),
        ),
{
    reveal(spec_circle);
}

/// The message for a parameter that must not appear here.
fn prohibit_msg(name: &str) -> (r: SimpleError)
    ensures
        r.0@ == spec_prohibit_msg(name@),
{
    let mut s = String::from_str("Parameter '");
    s.append(name);
    s.append("' is dangerous here");
    SimpleError(s)
}

/// The message for a parameter that must appear here.
fn require_msg(name: &str) -> (r: SimpleError)
    ensures
        r.0@ == spec_require_msg(name@),
{
    let mut s = String::from_str("Required parameter '");
    s.append(name);
    s.append("'");
    SimpleError(s)
}

/// A bound violation message: the prefix, the value, and the rest.
fn bound_msg(prefix: &str, v: u16, rest: &str) -> (r: SimpleError)
    ensures
        r.0@ == prefix@ + spec_dec_nat(v as nat) + rest@,
{
    let mut s = String::from_str(prefix);
    let d = dec_u64(v as u64);
    s.append(d.as_str());
    s.append(rest);
    SimpleError(s)
}

impl<R: Render> Machine<R> {
    /// A machine in its starting state with the given sink and limits.
    pub fn with_render_and_config(render: Option<R>, cfg: MachineConfig) -> (r: Self)
        ensures
            r@ == spec_fresh_machine(cfg),
    {
        let r = Machine {
            cfg,
            render,
            movement: None,
            x: None,
            y: None,
            z: None,
            speed: None,
            feed: None,
            tool: None,
            spindle_on: false,
            water_on: false,
            relative: false,
        };
        proof {
            assert(r@ =~= spec_fresh_machine(cfg));
        }
        r
    }

    /// A machine in its starting state with the given sink and the stock
    /// limits.
    pub fn with_render(render: Option<R>) -> (r: Self)
        ensures
            r@ == spec_fresh_machine(spec_default_config()),
    {
        Self::with_render_and_config(render, MachineConfig::default())
    }

    /// A machine in its starting state with no sink and the given limits.
    pub fn with_config(cfg: MachineConfig) -> (r: Self)
        ensures
            r@ == spec_fresh_machine(cfg),
    {
        Self::with_render_and_config(None, cfg)
    }

    /// Release the drawing sink.
    pub fn finalize(self) -> (r: Option<R>)
        ensures
            r == self.render,
    {
        self.render
    }

    /// The diameter of the active tool.
    fn choose_tool(&self) -> (r: Micrometer)
        ensures
            r.0 == 6000,
    {
        Micrometer(6000)
    }

    /// Check the cutting preconditions.
    fn prepare_cut(&self) -> (r: Result<(), SimpleError>)
        ensures
            match r {
                Ok(()) => spec_prepare_cut(self@) is None,
                Err(e) => spec_prepare_cut(self@) matches Some(m) && e.0@ == m,
            },
    {
        proof {
            reveal(spec_prepare_cut);
        }
        if !self.spindle_on {
            return Err(SimpleError(String::from_str("Trying to cut with spindle off")));
        }
        if !self.water_on {
            return Err(SimpleError(String::from_str("Trying to cut without coolant")));
        }
        let speed = match self.speed {
            Some(v) => v,
            None => 0,
        };
        if speed < self.cfg.min_speed {
            return Err(bound_msg("Speed ", speed, " is too low"));
        }
        if speed > self.cfg.max_speed {
            return Err(bound_msg("Speed ", speed, " is too high"));
        }
        let feed = match self.feed {
            Some(v) => v,
            None => 0,
        };
        if feed < self.cfg.min_feed {
            return Err(bound_msg("Feed ", feed, " is too low"));
        }
        if feed > self.cfg.max_feed {
            return Err(bound_msg("Feed ", feed, " is too high"));
        }
        if self.x.is_none() || self.y.is_none() || self.z.is_none() {
            return Err(SimpleError(String::from_str("Trying to cut from undefined position")));
        }
        if self.tool.is_none() {
            return Err(SimpleError(String::from_str("Trying to cut with no tool")));
        }
        Ok(())
    }

    /// Report a straight segment to the sink, once the position is fully
    /// known.
    fn line(&mut self, ty: Line)
        ensures
            final(self)@ == old(self)@,
    {
        let tool = self.choose_tool();
        if let (Some(x), Some(y), Some(z)) = (self.x, self.y, self.z) {
            if let Some(rd) = &mut self.render {
                rd.line_to(tool, ty, (x, y), z);
            }
        }
    }

    /// An arc move to `(x, y)` around the center offset by `(i, j)`.
    fn circle(
        &mut self,
        ty: Circle,
        i: Micrometer,
        j: Micrometer,
        x: Micrometer,
        y: Micrometer,
    ) -> (r: Result<(), SimpleError>)
        ensures
            match r {
                Ok(()) => spec_circle(old(self)@, i.0 as int, j.0 as int, x.0 as int, y.0 as int)
                    == Ok::<MachineV, Seq<char>>(final(self)@),
                Err(e) => final(self)@ == old(self)@ && (spec_circle(
                    old(self)@,
                    i.0 as int,
                    j.0 as int,
                    x.0 as int,
                    y.0 as int,
                ) matches Err(m) && e.0@ == m),
            },
            final(self)@.cfg == old(self)@.cfg,
    {
        proof {
            reveal(spec_circle);
            reveal(spec_prepare_cut);
        }
        match self.prepare_cut() {
            Err(e) => {
                return Err(e);
            },
            Ok(()) => {},
        }
        let tool = self.choose_tool();
        let (sx, sy) = match (self.x, self.y) {
            (Some(a), Some(b)) => (a, b),
            _ => {
                proof {
                    assert(false);
                }
                return Err(SimpleError(String::new()));
            },
        };
        let cx = match sx.checked_add(i) {
            Some(v) => v,
            None => {
                return Err(SimpleError(String::from_str("Coordinate overflow")));
            },
        };
        let cy = match sy.checked_add(j) {
            Some(v) => v,
            None => {
                return Err(SimpleError(String::from_str("Coordinate overflow")));
            },
        };
        let ex = match x.checked_sub(cx) {
            Some(v) => v,
            None => {
                return Err(SimpleError(String::from_str("Coordinate overflow")));
            },
        };
        let ey = match y.checked_sub(cy) {
            Some(v) => v,
            None => {
                return Err(SimpleError(String::from_str("Coordinate overflow")));
            },
        };
        let r_start = rounded_sqrt(dist_squared(i.0, j.0));
        let r_end = rounded_sqrt(dist_squared(ex.0, ey.0));
        if r_end != r_start {
            let mut msg = String::from_str("Circle end point not on the circle (radius = ");
            let a = dec_u64(r_start / 1000);
            msg.append(a.as_str());
            msg.append(".");
            let b = pad3_u64(r_start % 1000);
            msg.append(b.as_str());
            msg.append(", start at (");
            let sxt = sx.to_text();
            msg.append(sxt.as_str());
            msg.append(", ");
            let syt = sy.to_text();
            msg.append(syt.as_str());
            msg.append("))");
            proof {
                assert(spec_um_text(r_start as int) == spec_dec_nat((r_start as int / 1000) as nat)
                    + "."@ + crate::text::spec_pad3(r_start as int % 1000));
            }
            return Err(SimpleError(msg));
        }
        if let Some(rd) = &mut self.render {
            rd.arc_to(tool, ty, (cx, cy), (x, y));
        }
        self.x = Some(x);
        self.y = Some(y);
        proof {
            assert(spec_circle(old(self)@, i.0 as int, j.0 as int, x.0 as int, y.0 as int)
                matches Ok(m2) && final(self)@ =~= m2);
        }
        Ok(())
    }
}

impl<R: Render> Machine<R> {
    /// The coordinate resolution of one command.
    fn resolve(&self, code: &Command) -> (r: Result<
        (Option<Micrometer>, Option<Micrometer>, Option<Micrometer>),
        SimpleError,
    >)
        ensures
            match r {
                Ok((cox, coy, coz)) => spec_resolve(self@, code@) == Ok::<
                    (Option<int>, Option<int>, Option<int>),
                    Seq<char>,
                >((spec_opt_um(cox), spec_opt_um(coy), spec_opt_um(coz))),
                Err(e) => spec_resolve(self@, code@) matches Err(m) && e.0@ == m,
            },
    {
        proof {
            reveal(spec_resolve);
        }
        if self.relative {
            let (mx, my, mz) = match (self.x, self.y, self.z) {
                (Some(a), Some(b), Some(d)) => (a, b, d),
                _ => {
                    return Err(
                        SimpleError(
                            String::from_str(
                                "Relative coordinates can only be used with fully defined position",
                            ),
                        ),
                    );
                },
            };
            let cox = match code.raw_x {
                Some(a) => match a.checked_add(mx) {
                    Some(v) => Some(v),
                    None => {
                        return Err(SimpleError(String::from_str("Coordinate overflow")));
                    },
                },
                None => None,
            };
            let coy = match code.raw_y {
                Some(a) => match a.checked_add(my) {
                    Some(v) => Some(v),
                    None => {
                        return Err(SimpleError(String::from_str("Coordinate overflow")));
                    },
                },
                None => None,
            };
            let coz = match code.raw_z {
                Some(a) => match a.checked_add(mz) {
                    Some(v) => Some(v),
                    None => {
                        return Err(SimpleError(String::from_str("Coordinate overflow")));
                    },
                },
                None => None,
            };
            Ok((cox, coy, coz))
        } else {
            Ok((code.raw_x, code.raw_y, code.raw_z))
        }
    }

    /// The spindle phase of one command.
    fn spindle_phase(
        &mut self,
        code: &Command,
        new_move: bool,
        cox: Option<Micrometer>,
        coy: Option<Micrometer>,
        coz: Option<Micrometer>,
    ) -> (r: Result<(), SimpleError>)
        ensures
            match r {
                Ok(()) => spec_spindle_phase(
                    old(self)@,
                    code@,
                    new_move,
                    spec_opt_um(cox),
                    spec_opt_um(coy),
                    spec_opt_um(coz),
                ) == Ok::<MachineV, Seq<char>>(final(self)@),
                Err(e) => spec_spindle_phase(
                    old(self)@,
                    code@,
                    new_move,
                    spec_opt_um(cox),
                    spec_opt_um(coy),
                    spec_opt_um(coz),
                ) matches Err(m) && e.0@ == m,
            },
            r is Err ==> final(self)@ == old(self)@,
            final(self)@.cfg == old(self)@.cfg,
    {
        proof {
            reveal(spec_spindle_phase);
        }
        if let Some(sp) = code.spindle_action {
            match sp {
                SpindleAction::SpindleOnCCW => {
                    return Err(SimpleError(String::from_str("Trying to start spindle backwards")));
                },
                SpindleAction::SpindleOnCW => {
                    if !self.water_on {
                        return Err(
                            SimpleError(
                                String::from_str(
                                    "Trying to start spindle without ensuring coolant flow",
                                ),
                            ),
                        );
                    }
                    if self.speed.is_none() {
                        return Err(
                            SimpleError(
                                String::from_str("Trying to start spindle without any speed"),
                            ),
                        );
                    }
                    self.spindle_on = true;
                },
                SpindleAction::SpindleOff => {
                    if new_move {
                        return Err(
                            SimpleError(String::from_str("Trying to turn off spindle while moving")),
                        );
                    }
                    if cox.is_some() {
                        return Err(prohibit_msg("X"));
                    }
                    if coy.is_some() {
                        return Err(prohibit_msg("Y"));
                    }
                    if coz.is_some() {
                        return Err(prohibit_msg("Z"));
                    }
                    if code.i.is_some() {
                        return Err(prohibit_msg("I"));
                    }
                    if code.j.is_some() {
                        return Err(prohibit_msg("J"));
                    }
                    self.spindle_on = false;
                    self.speed = None;
                },
            }
        }
        Ok(())
    }

    /// The coolant phase of one command.
    fn water_phase(
        &mut self,
        code: &Command,
        new_move: bool,
        cox: Option<Micrometer>,
        coy: Option<Micrometer>,
        coz: Option<Micrometer>,
    ) -> (r: Result<(), SimpleError>)
        ensures
            match r {
                Ok(()) => spec_water_phase(
                    old(self)@,
                    code@,
                    new_move,
                    spec_opt_um(cox),
                    spec_opt_um(coy),
                    spec_opt_um(coz),
                ) == Ok::<MachineV, Seq<char>>(final(self)@),
                Err(e) => spec_water_phase(
                    old(self)@,
                    code@,
                    new_move,
                    spec_opt_um(cox),
                    spec_opt_um(coy),
                    spec_opt_um(coz),
                ) matches Err(m) && e.0@ == m,
            },
            r is Err ==> final(self)@ == old(self)@,
            final(self)@.cfg == old(self)@.cfg,
    {
        proof {
            reveal(spec_water_phase);
        }
        if let Some(wt) = code.water_action {
            match wt {
                WaterAction::WaterOn => {
                    self.water_on = true;
                },
                WaterAction::WaterOff => {
                    if new_move {
                        return Err(
                            SimpleError(String::from_str("Trying to turn off coolant while moving")),
                        );
                    }
                    if self.spindle_on {
                        return Err(
                            SimpleError(
                                String::from_str("Coolant turned off while spindle still running"),
                            ),
                        );
                    }
                    if cox.is_some() {
                        return Err(prohibit_msg("X"));
                    }
                    if coy.is_some() {
                        return Err(prohibit_msg("Y"));
                    }
                    if coz.is_some() {
                        return Err(prohibit_msg("Z"));
                    }
                    if code.i.is_some() {
                        return Err(prohibit_msg("I"));
                    }
                    if code.j.is_some() {
                        return Err(prohibit_msg("J"));
                    }
                    self.water_on = false;
                },
            }
        }
        Ok(())
    }

    /// Apply one command to the machine under the fixed evaluation order.
    /// On an error, the machine may keep the modal updates already made;
    /// the message is the one for the first violated rule.
    #[verifier::rlimit(100)]
    #[verifier::spinoff_prover]
    pub fn execute_command(&mut self, code: Command) -> (r: Result<(), SimpleError>)
        ensures
            match r {
                Ok(()) => spec_step(old(self)@, code@) == Ok::<MachineV, Seq<char>>(final(self)@),
                Err(e) => spec_step(old(self)@, code@) matches Err(m) && e.0@ == m,
            },
            final(self)@.cfg == old(self)@.cfg,
            code@.global == Some(Global::EndProgram) && (old(self)@.spindle_on
                || old(self)@.water_on || spec_z_or_safe(old(self)@) < old(
                self,
            )@.cfg.safe_z.0 as int) ==> final(self)@ == old(self)@,
    {
        let ghost m0 = self@;
        let ghost c = code@;
        if let Some(Global::EndProgram) = code.global {
            if self.spindle_on {
                return Err(SimpleError(String::from_str("Ending program with spindle on")));
            }
            if self.water_on {
                return Err(SimpleError(String::from_str("Ending program with coolant on")));
            }
            let zc = match self.z {
                Some(z) => z,
                None => self.cfg.safe_z,
            };
            if zc.0 < self.cfg.safe_z.0 {
                return Err(SimpleError(String::from_str("Ending program with too low Z")));
            }
        }
        let tool_changed = code.tool.is_some() && self.tool.is_some();
        if code.speed.is_some() {
            self.speed = code.speed;
        }
        if code.feed.is_some() {
            self.feed = code.feed;
        }
        if code.tool.is_some() {
            self.tool = code.tool;
        }
        if let Some(csw) = code.coord_switch {
            match csw {
                CoordSwitch::Absolute => {
                    self.relative = false;
                },
                CoordSwitch::Relative => {
                    self.relative = true;
                },
            }
        }
        let ghost m2 = (match c.coord_switch {
            Some(CoordSwitch::Absolute) => MachineV {
                relative: false,
                speed: spec_upd(m0.speed, c.speed),
                feed: spec_upd(m0.feed, c.feed),
                tool: spec_upd(m0.tool, c.tool),
                ..m0
            },
            Some(CoordSwitch::Relative) => MachineV {
                relative: true,
                speed: spec_upd(m0.speed, c.speed),
                feed: spec_upd(m0.feed, c.feed),
                tool: spec_upd(m0.tool, c.tool),
                ..m0
            },
            None => MachineV {
                speed: spec_upd(m0.speed, c.speed),
                feed: spec_upd(m0.feed, c.feed),
                tool: spec_upd(m0.tool, c.tool),
                ..m0
            },
        });
        proof {
            assert(self@ =~= m2);
        }
        let (cox, coy, coz) = match self.resolve(&code) {
            Ok(t) => t,
            Err(e) => {
                return Err(e);
            },
        };
        let ghost rcox = spec_opt_um(cox);
        let ghost rcoy = spec_opt_um(coy);
        let ghost rcoz = spec_opt_um(coz);
        let new_move = code.movement.is_some();
        if code.movement.is_some() {
            self.movement = code.movement;
        }
        let ghost m3 = MachineV { movement: spec_upd(m2.movement, c.movement), ..m2 };
        proof {
            assert(self@ =~= m3);
        }
        match self.spindle_phase(&code, new_move, cox, coy, coz) {
            Ok(()) => {},
            Err(e) => {
                return Err(e);
            },
        }
        let ghost m4 = self@;
        match self.water_phase(&code, new_move, cox, coy, coz) {
            Ok(()) => {},
            Err(e) => {
                return Err(e);
            },
        }
        let ghost m5 = self@;
        let was_tc = match self.dispatch(&code, new_move, cox, coy, coz) {
            Ok(b) => b,
            Err(e) => {
                return Err(e);
            },
        };
        proof {
            assert(spec_dispatch(m5, c, new_move, rcox, rcoy, rcoz) == Ok::<
                (MachineV, bool),
                Seq<char>,
            >((self@, was_tc)));
        }
        if tool_changed && !was_tc {
            return Err(SimpleError(String::from_str("Tool change without stopping")));
        }
        Ok(())
    }

    /// Apply one command and annotate any violation with the 1-based file
    /// line the command came from.
    pub fn execute_line(&mut self, file_line: u64, code: Command) -> (r: Result<(), LineError>)
        ensures
            match r {
                Ok(()) => spec_step(old(self)@, code@) == Ok::<MachineV, Seq<char>>(final(self)@),
                Err(e) => (spec_step(old(self)@, code@) matches Err(m) && e.error.0@ == m)
                    && e.line == Some(file_line),
            },
            final(self)@.cfg == old(self)@.cfg,
            code@.global == Some(Global::EndProgram) && (old(self)@.spindle_on
                || old(self)@.water_on || spec_z_or_safe(old(self)@) < old(
                self,
            )@.cfg.safe_z.0 as int) ==> final(self)@ == old(self)@,
    {
        match self.execute_command(code) {
            Ok(()) => Ok(()),
            Err(e) => Err(e.at_line(file_line)),
        }
    }

    /// The movement dispatch of one command: run the current movement
    /// mode when the command switches modes or names an axis target.
    /// The result tells whether a tool change ran.
    #[verifier::rlimit(100)]
    #[verifier::spinoff_prover]
    fn dispatch(
        &mut self,
        code: &Command,
        new_move: bool,
        cox: Option<Micrometer>,
        coy: Option<Micrometer>,
        coz: Option<Micrometer>,
    ) -> (r: Result<bool, SimpleError>)
        ensures
            match r {
                Ok(was_tc) => spec_dispatch(
                    old(self)@,
                    code@,
                    new_move,
                    spec_opt_um(cox),
                    spec_opt_um(coy),
                    spec_opt_um(coz),
                ) == Ok::<(MachineV, bool), Seq<char>>((final(self)@, was_tc)),
                Err(e) => spec_dispatch(
                    old(self)@,
                    code@,
                    new_move,
                    spec_opt_um(cox),
                    spec_opt_um(coy),
                    spec_opt_um(coz),
                ) matches Err(m) && e.0@ == m,
            },
            final(self)@.cfg == old(self)@.cfg,
    {
        proof {
            reveal(spec_dispatch);
        }
        let run = self.movement.is_some() && (new_move || cox.is_some() || coy.is_some()
            || coz.is_some());
        let mut was_tc = false;
        if run {
            let mv = match self.movement {
                Some(m) => m,
                None => {
                    proof {
                        assert(false);
                    }
                    return Err(SimpleError(String::new()));
                },
            };
            match mv {
                Movement::FastLine => {
                    if new_move && code.tool.is_some() {
                        return Err(prohibit_msg("D"));
                    }
                    if code.i.is_some() {
                        return Err(prohibit_msg("I"));
                    }
                    if code.j.is_some() {
                        return Err(prohibit_msg("J"));
                    }
                    if self.z.is_none() {
                        if cox.is_some() {
                            return Err(prohibit_msg("X"));
                        }
                        if coy.is_some() {
                            return Err(prohibit_msg("Y"));
                        }
                        let z = match coz {
                            Some(z) => z,
                            None => {
                                return Err(require_msg("Z"));
                            },
                        };
                        if z.0 != self.cfg.safe_z.0 {
                            return Err(
                                SimpleError(
                                    String::from_str("First movement should be to safe Z height"),
                                ),
                            );
                        }
                        self.z = Some(z);
                    } else if self.x.is_none() || self.y.is_none() {
                        if coz.is_some() {
                            self.z = coz;
                        }
                        let z = match self.z {
                            Some(z) => z,
                            None => {
                                proof {
                                    assert(false);
                                }
                                return Err(SimpleError(String::new()));
                            },
                        };
                        if z.0 < self.cfg.safe_z.0 {
                            return Err(
                                SimpleError(
                                    String::from_str(
                                        "Unsafe movement without fully defining the position",
                                    ),
                                ),
                            );
                        }
                        if cox.is_some() {
                            self.x = cox;
                        }
                        if coy.is_some() {
                            self.y = coy;
                        }
                    } else {
                        if cox.is_some() {
                            self.x = cox;
                        }
                        if coy.is_some() {
                            self.y = coy;
                        }
                        if coz.is_some() {
                            self.z = coz;
                        }
                    }
                    self.line(Line::Fast);
                },
                Movement::Line => {
                    if code.tool.is_some() {
                        return Err(prohibit_msg("D"));
                    }
                    if code.i.is_some() {
                        return Err(prohibit_msg("I"));
                    }
                    if code.j.is_some() {
                        return Err(prohibit_msg("J"));
                    }
                    match self.prepare_cut() {
                        Err(e) => {
                            return Err(e);
                        },
                        Ok(()) => {},
                    }
                    if cox.is_some() {
                        self.x = cox;
                    }
                    if coy.is_some() {
                        self.y = coy;
                    }
                    if coz.is_some() {
                        self.z = coz;
                    }
                    self.line(Line::Cut);
                },
                Movement::CircleCW | Movement::CircleCCW => {
                    if code.tool.is_some() {
                        return Err(prohibit_msg("D"));
                    }
                    if coz.is_some() {
                        return Err(prohibit_msg("Z"));
                    }
                    let iv = match code.i {
                        Some(v) => v,
                        None => {
                            return Err(require_msg("I"));
                        },
                    };
                    let jv = match code.j {
                        Some(v) => v,
                        None => {
                            return Err(require_msg("J"));
                        },
                    };
                    let xv = match cox {
                        Some(v) => v,
                        None => {
                            return Err(require_msg("X"));
                        },
                    };
                    let yv = match coy {
                        Some(v) => v,
                        None => {
                            return Err(require_msg("Y"));
                        },
                    };
                    let ty = if matches!(mv, Movement::CircleCW) {
                        Circle::Cw
                    } else {
                        Circle::Ccw
                    };
                    match self.circle(ty, iv, jv, xv, yv) {
                        Err(e) => {
                            return Err(e);
                        },
                        Ok(()) => {},
                    }
                },
                Movement::ToolChange => {
                    if code.tool.is_none() {
                        return Err(require_msg("D"));
                    }
                    if cox.is_some() {
                        return Err(prohibit_msg("X"));
                    }
                    if coy.is_some() {
                        return Err(prohibit_msg("Y"));
                    }
                    if coz.is_some() {
                        return Err(prohibit_msg("Z"));
                    }
                    if code.i.is_some() {
                        return Err(prohibit_msg("I"));
                    }
                    if code.j.is_some() {
                        return Err(prohibit_msg("J"));
                    }
                    was_tc = true;
                    if self.spindle_on || self.water_on {
                        return Err(
                            SimpleError(
                                String::from_str(
                                    "Turn off spindle and coolant before performing tool change",
                                ),
                            ),
                        );
                    }
                    let zc = match self.z {
                        Some(z) => z,
                        None => self.cfg.safe_z,
                    };
                    if zc.0 < self.cfg.safe_z.0 {
                        return Err(
                            SimpleError(
                                String::from_str("Must be high enough to perform tool change"),
                            ),
                        );
                    }
                    self.spindle_on = false;
                    self.water_on = false;
                    self.speed = None;
                    self.feed = None;
                    self.movement = None;
                    self.z = None;
                },
                Movement::BuiltinCycle(_) => {
                    if code.tool.is_some() {
                        return Err(prohibit_msg("D"));
                    }
                    match self.prepare_cut() {
                        Err(e) => {
                            return Err(e);
                        },
                        Ok(()) => {},
                    }
                    self.movement = None;
                },
            }
        } else {
            if cox.is_some() {
                return Err(prohibit_msg("X"));
            }
            if coy.is_some() {
                return Err(prohibit_msg("Y"));
            }
            if coz.is_some() {
                return Err(prohibit_msg("Z"));
            }
            if code.i.is_some() {
                return Err(prohibit_msg("I"));
            }
            if code.j.is_some() {
                return Err(prohibit_msg("J"));
            }
        }
        Ok(was_tc)
    }

}

} // verus!
