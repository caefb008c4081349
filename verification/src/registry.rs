//! Probing that needs all three capabilities: every candidate is probed,
//! the first passing one of each capability serves it, and without a winner
//! for each the ordered list of probes is the answer.
use crate::drivers::Probe;
use vstd::prelude::*;

verus! {

/// A complete set of backends and the probes made to choose them.
pub struct Registry<S, I, W> {
    pub shot: S,
    pub input: I,
    pub windows: W,
    pub probes: Vec<Probe>,
}

/// The winners so far while every candidate is probed.
pub struct Candidates<S, I, W> {
    pub shot: Option<S>,
    pub input: Option<I>,
    pub windows: Option<W>,
    pub probes: Vec<Probe>,
}

impl<S, I, W> Candidates<S, I, W> {
    pub fn new() -> (r: Self)
        ensures
            r.shot is None,
            r.input is None,
            r.windows is None,
            r.probes@.len() == 0,
    {
        Candidates { shot: None, input: None, windows: None, probes: Vec::new() }
    }

    /// Records a screenshot candidate's probe; the first that passes wins.
    pub fn consider_shot(&mut self, driver: S, probe: Probe)
        ensures
            final(self).probes@ == old(self).probes@.push(probe),
            final(self).shot == if probe.ok && old(self).shot is None {
                Some(driver)
            } else {
                old(self).shot
            },
            final(self).input == old(self).input,
            final(self).windows == old(self).windows,
    {
        if probe.ok && self.shot.is_none() {
            self.shot = Some(driver);
        }
        self.probes.push(probe);
    }

    /// Records an input candidate's probe; the first that passes wins.
    pub fn consider_input(&mut self, driver: I, probe: Probe)
        ensures
            final(self).probes@ == old(self).probes@.push(probe),
            final(self).input == if probe.ok && old(self).input is None {
                Some(driver)
            } else {
                old(self).input
            },
            final(self).shot == old(self).shot,
            final(self).windows == old(self).windows,
    {
        if probe.ok && self.input.is_none() {
            self.input = Some(driver);
        }
        self.probes.push(probe);
    }

    /// Records a window candidate's probe; the first that passes wins.
    pub fn consider_windows(&mut self, driver: W, probe: Probe)
        ensures
            final(self).probes@ == old(self).probes@.push(probe),
            final(self).windows == if probe.ok && old(self).windows is None {
                Some(driver)
            } else {
                old(self).windows
            },
            final(self).shot == old(self).shot,
            final(self).input == old(self).input,
    {
        if probe.ok && self.windows.is_none() {
            self.windows = Some(driver);
        }
        self.probes.push(probe);
    }

    /// The registry when every capability has a winner, else all probes in
    /// the order they were made.
    pub fn finish(self) -> (r: Result<Registry<S, I, W>, Vec<Probe>>)
        ensures
            match (self.shot, self.input, self.windows) {
                (Some(s), Some(i), Some(w)) => r matches Ok(reg) && reg.shot == s && reg.input == i
                    && reg.windows == w && reg.probes@ == self.probes@,
                _ => r matches Err(p) && p@ == self.probes@,
            },
    {
        match (self.shot, self.input, self.windows) {
            (Some(shot), Some(input), Some(windows)) => Ok(Registry { shot, input, windows, probes: self.probes }),
            _ => Err(self.probes),
        }
    }
}

} // verus!
