//! The decisions of the path-tracing integrator, per bounce: what the
//! caller does with a hit, and when the path ends.
use vstd::prelude::*;
use crate::fresnel::Ratio;

verus! {

/// What the current ray met, as the integrator classified it.
#[derive(Clone, Copy, Debug, PartialEq, Eq, Structural)]
pub enum Event {
    /// Nothing was hit.
    Miss,
    /// A light source was hit.
    Light,
    /// A mirror-like reflection was sampled.
    Mirror,
    /// A dielectric was hit and reflection (`false`) or refraction (`true`)
    /// was sampled.
    Dielectric { refract: bool },
    /// A diffuse bounce was sampled.
    Diffuse,
}

/// What the caller does next.
#[derive(Clone, Copy, Debug, PartialEq, Eq, Structural)]
pub enum Action {
    /// Add the background radiance and stop.
    Background,
    /// Add the light's radiance and stop.
    Emit,
    /// Stop without adding anything.
    Stop,
    /// Continue along the mirror direction.
    Reflect,
    /// Continue along the refracted direction.
    Refract,
    /// Continue along a sampled diffuse direction.
    Scatter,
}

/// The state of one path.
#[derive(Clone, Copy, Debug, PartialEq, Eq, Structural)]
pub struct PathState {
    /// Bounces taken so far.
    pub depth: u32,
    /// Most bounces allowed.
    pub max_depth: u32,
    /// The last bounce was specular (or this is the camera ray).
    pub last_specular: bool,
    /// Lights are sampled directly at each diffuse bounce.
    pub nee: bool,
    /// The path has not ended.
    pub alive: bool,
}

impl PathState {
    /// The state of a camera ray.
    pub fn new(max_depth: u32, nee: bool) -> (r: PathState)
        ensures
            r == (PathState { depth: 0, max_depth, last_specular: true, nee, alive: true }),
    {
        PathState { depth: 0, max_depth, last_specular: true, nee, alive: true }
    }

    /// A light hit directly counts unless direct light sampling already
    /// counted it at the previous, diffuse, bounce.
    pub open spec fn counts_emission(&self) -> bool {
        self.last_specular || !self.nee
    }

    /// One bounce: the action for `event` and the next state. A path ends at
    /// a miss, at a light, or when it has taken `max_depth` bounces.
    pub fn step(&self, event: Event) -> (r: (PathState, Action))
        ensures
            !self.alive || self.depth >= self.max_depth ==> r == (
            PathState { alive: false, ..*self },
            Action::Stop,
            ),
            self.alive && self.depth < self.max_depth ==> r == match event {
                Event::Miss => (PathState { alive: false, ..*self }, Action::Background),
                Event::Light => (
                    PathState { alive: false, ..*self },
                    if self.counts_emission() {
                        Action::Emit
                    } else {
                        Action::Stop
                    },
                ),
                Event::Mirror => (
                    PathState { depth: (self.depth + 1) as u32, last_specular: true, ..*self },
                    Action::Reflect,
                ),
                Event::Dielectric { refract } => (
                    PathState { depth: (self.depth + 1) as u32, last_specular: true, ..*self },
                    if refract {
                        Action::Refract
                    } else {
                        Action::Reflect
                    },
                ),
                Event::Diffuse => (
                    PathState { depth: (self.depth + 1) as u32, last_specular: false, ..*self },
                    Action::Scatter,
                ),
            },
            r.0.depth <= self.max_depth || r.0.depth == self.depth,
            r.0.max_depth == self.max_depth && r.0.nee == self.nee,
    {
        if !self.alive || self.depth >= self.max_depth {
            return (PathState { alive: false, ..*self }, Action::Stop);
        }
        match event {
            Event::Miss => (PathState { alive: false, ..*self }, Action::Background),
            Event::Light => {
                let emit = self.last_specular || !self.nee;
                (PathState { alive: false, ..*self }, if emit {
                    Action::Emit
                } else {
                    Action::Stop
                })
            },
            Event::Mirror => (
                PathState { depth: self.depth + 1, last_specular: true, ..*self },
                Action::Reflect,
            ),
            Event::Dielectric { refract } => (
                PathState { depth: self.depth + 1, last_specular: true, ..*self },
                if refract {
                    Action::Refract
                } else {
                    Action::Reflect
                },
            ),
            Event::Diffuse => (
                PathState { depth: self.depth + 1, last_specular: false, ..*self },
                Action::Scatter,
            ),
        }
    }
}

/// Fixed-point one for probabilities and throughput channels.
pub const PROB_ONE: u32 = 65536;

/// Probability that a path of throughput `max_channel` (its largest
/// channel) survives Russian roulette: the throughput clamped to
/// [`low`, `high`].
pub open spec fn survival_spec(max_channel: u32, low: u32, high: u32) -> u32 {
    if max_channel < low {
        low
    } else if max_channel > high {
        high
    } else {
        max_channel
    }
}

/// Russian roulette with a uniform `draw` in [0, PROB_ONE): `Some(p)` when
/// the path survives with probability p / PROB_ONE (the caller then divides
/// its throughput by it), `None` when it ends.
pub fn roulette(max_channel: u32, low: u32, high: u32, draw: u32) -> (r: Option<u32>)
    requires
        0 < low <= high <= PROB_ONE,
    ensures
        draw < survival_spec(max_channel, low, high) <==> r is Some,
        r matches Some(p) ==> p == survival_spec(max_channel, low, high) && 0 < p <= PROB_ONE,
{
    let p = if max_channel < low {
        low
    } else if max_channel > high {
        high
    } else {
        max_channel
    };
    if draw < p {
        Some(p)
    } else {
        None
    }
}

/// Fixed-point one for the mirror fraction `spec` of a conductor.
pub const SPEC_ONE: u32 = 1000;

/// At a conductor with mirror fraction `spec / SPEC_ONE`, a uniform `draw`
/// in [0, SPEC_ONE) picks a mirror reflection below `spec`, else a diffuse
/// bounce.
pub fn conductor_event(spec: u32, draw: u32) -> (r: Event)
    ensures
        r == if draw < spec {
            Event::Mirror
        } else {
            Event::Diffuse
        },
{
    if draw < spec {
        Event::Mirror
    } else {
        Event::Diffuse
    }
}

/// At a dielectric reflecting the fraction `reflected`, a uniform `draw` in
/// [0, `range`) picks reflection when draw / range < reflected, else
/// refraction.
pub fn dielectric_event(reflected: Ratio, draw: u64, range: u64) -> (r: Event)
    requires
        0 < reflected.den <= 0x10_0000_0000_0000_0000_0000_0000,
        reflected.num <= reflected.den,
        draw < range <= 0x100_0000,
    ensures
        r == (Event::Dielectric { refract: draw * reflected.den >= reflected.num * range }),
{
    proof {
        assert(draw * reflected.den <= 0x100_0000 * 0x10_0000_0000_0000_0000_0000_0000) by (nonlinear_arith)
            requires
                draw <= 0x100_0000,
                reflected.den <= 0x10_0000_0000_0000_0000_0000_0000,
        ;
        assert(reflected.num * range <= 0x10_0000_0000_0000_0000_0000_0000 * 0x100_0000) by (nonlinear_arith)
            requires
                range <= 0x100_0000,
                reflected.num <= 0x10_0000_0000_0000_0000_0000_0000,
        ;
    }
    Event::Dielectric { refract: (draw as u128) * reflected.den >= reflected.num * (range as u128) }
}

} // verus!
