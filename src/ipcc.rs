//! Doorbell peripheral between the two cores: one flag per channel and
//! direction, each with an interrupt mask on the application core's side.
use vstd::prelude::*;

verus! {

/// Number of doorbell channels in each direction.
pub const IPCC_CHANNELS: usize = 6;

#[derive(Debug, Copy, Clone, PartialEq, Eq, Structural)]
pub enum IpccChannel {
    Channel1,
    Channel2,
    Channel3,
    Channel4,
    Channel5,
    Channel6,
}

impl IpccChannel {
    pub open spec fn spec_index(self) -> int {
        match self {
            IpccChannel::Channel1 => 0,
            IpccChannel::Channel2 => 1,
            IpccChannel::Channel3 => 2,
            IpccChannel::Channel4 => 3,
            IpccChannel::Channel5 => 4,
            IpccChannel::Channel6 => 5,
        }
    }

    /// Position of the channel's bit in the doorbell registers.
    pub fn index(self) -> (r: usize)
        ensures
            r == self.spec_index(),
            r < IPCC_CHANNELS,
    {
        match self {
            IpccChannel::Channel1 => 0,
            IpccChannel::Channel2 => 1,
            IpccChannel::Channel3 => 2,
            IpccChannel::Channel4 => 3,
            IpccChannel::Channel5 => 4,
            IpccChannel::Channel6 => 5,
        }
    }
}

/// State of the doorbell as the application core sees it.
///
/// `c1_flags` are raised by this core (commands, releases) and lowered by the
/// coprocessor once it has taken the data; `c2_flags` are raised by the
/// coprocessor (events) and lowered here once the data is drained.
pub struct Ipcc {
    c1_flags: Vec<bool>,
    c2_flags: Vec<bool>,
    rx_enabled: Vec<bool>,
    tx_enabled: Vec<bool>,
}

impl Ipcc {
    pub closed spec fn c1_flags(&self) -> Seq<bool> {
        self.c1_flags@
    }

    pub closed spec fn c2_flags(&self) -> Seq<bool> {
        self.c2_flags@
    }

    pub closed spec fn rx_enabled(&self) -> Seq<bool> {
        self.rx_enabled@
    }

    pub closed spec fn tx_enabled(&self) -> Seq<bool> {
        self.tx_enabled@
    }

    pub open spec fn wf(&self) -> bool {
        &&& self.c1_flags().len() == IPCC_CHANNELS
        &&& self.c2_flags().len() == IPCC_CHANNELS
        &&& self.rx_enabled().len() == IPCC_CHANNELS
        &&& self.tx_enabled().len() == IPCC_CHANNELS
    }

    /// Whether the coprocessor has signalled on `ch` and the receive
    /// interrupt of `ch` is unmasked.
    pub open spec fn spec_rx_pending(&self, ch: IpccChannel) -> bool {
        self.c2_flags()[ch.spec_index()] && self.rx_enabled()[ch.spec_index()]
    }

    /// Whether `ch` is free again for this core and its transmit interrupt
    /// is unmasked.
    pub open spec fn spec_tx_pending(&self, ch: IpccChannel) -> bool {
        !self.c1_flags()[ch.spec_index()] && self.tx_enabled()[ch.spec_index()]
    }

    /// All flags low, all interrupts masked.
    pub fn new() -> (r: Ipcc)
        ensures
            r.wf(),
            r.c1_flags() == Seq::new(6, |i: int| false),
            r.c2_flags() == Seq::new(6, |i: int| false),
            r.rx_enabled() == Seq::new(6, |i: int| false),
            r.tx_enabled() == Seq::new(6, |i: int| false),
    {
        let r = Ipcc {
            c1_flags: vec![false; IPCC_CHANNELS],
            c2_flags: vec![false; IPCC_CHANNELS],
            rx_enabled: vec![false; IPCC_CHANNELS],
            tx_enabled: vec![false; IPCC_CHANNELS],
        };
        assert(r.c1_flags() =~= Seq::new(6, |i: int| false));
        assert(r.c2_flags() =~= Seq::new(6, |i: int| false));
        assert(r.rx_enabled() =~= Seq::new(6, |i: int| false));
        assert(r.tx_enabled() =~= Seq::new(6, |i: int| false));
        r
    }

    pub fn is_rx_pending(&self, ch: IpccChannel) -> (r: bool)
        requires
            self.wf(),
        ensures
            r == self.spec_rx_pending(ch),
    {
        let i = ch.index();
        self.c2_flags[i] && self.rx_enabled[i]
    }

    pub fn is_tx_pending(&self, ch: IpccChannel) -> (r: bool)
        requires
            self.wf(),
        ensures
            r == self.spec_tx_pending(ch),
    {
        let i = ch.index();
        !self.c1_flags[i] && self.tx_enabled[i]
    }

    /// Whether this core's flag on `ch` is still raised, that is, the
    /// coprocessor has not yet taken what was signalled.
    pub fn c1_is_active_flag(&self, ch: IpccChannel) -> (r: bool)
        requires
            self.wf(),
        ensures
            r == self.c1_flags()[ch.spec_index()],
    {
        self.c1_flags[ch.index()]
    }

    /// Unmasks or masks the receive interrupt of `ch`.
    pub fn c1_set_rx_channel(&mut self, ch: IpccChannel, enabled: bool)
        requires
            old(self).wf(),
        ensures
            final(self).wf(),
            final(self).rx_enabled() == old(self).rx_enabled().update(ch.spec_index(), enabled),
            final(self).tx_enabled() == old(self).tx_enabled(),
            final(self).c1_flags() == old(self).c1_flags(),
            final(self).c2_flags() == old(self).c2_flags(),
    {
        self.rx_enabled.set(ch.index(), enabled);
    }

    /// Unmasks or masks the transmit interrupt of `ch`.
    pub fn c1_set_tx_channel(&mut self, ch: IpccChannel, enabled: bool)
        requires
            old(self).wf(),
        ensures
            final(self).wf(),
            final(self).tx_enabled() == old(self).tx_enabled().update(ch.spec_index(), enabled),
            final(self).rx_enabled() == old(self).rx_enabled(),
            final(self).c1_flags() == old(self).c1_flags(),
            final(self).c2_flags() == old(self).c2_flags(),
    {
        self.tx_enabled.set(ch.index(), enabled);
    }

    /// Acknowledges the coprocessor's signal on `ch`.
    pub fn c1_clear_flag_channel(&mut self, ch: IpccChannel)
        requires
            old(self).wf(),
        ensures
            final(self).wf(),
            final(self).c2_flags() == old(self).c2_flags().update(ch.spec_index(), false),
            final(self).c1_flags() == old(self).c1_flags(),
            final(self).rx_enabled() == old(self).rx_enabled(),
            final(self).tx_enabled() == old(self).tx_enabled(),
    {
        self.c2_flags.set(ch.index(), false);
    }

    /// Signals the coprocessor on `ch`.
    pub fn c1_set_flag_channel(&mut self, ch: IpccChannel)
        requires
            old(self).wf(),
        ensures
            final(self).wf(),
            final(self).c1_flags() == old(self).c1_flags().update(ch.spec_index(), true),
            final(self).c2_flags() == old(self).c2_flags(),
            final(self).rx_enabled() == old(self).rx_enabled(),
            final(self).tx_enabled() == old(self).tx_enabled(),
    {
        self.c1_flags.set(ch.index(), true);
    }

    /// The coprocessor signals this core on `ch`.
    pub fn c2_set_flag_channel(&mut self, ch: IpccChannel)
        requires
            old(self).wf(),
        ensures
            final(self).wf(),
            final(self).c2_flags() == old(self).c2_flags().update(ch.spec_index(), true),
            final(self).c1_flags() == old(self).c1_flags(),
            final(self).rx_enabled() == old(self).rx_enabled(),
            final(self).tx_enabled() == old(self).tx_enabled(),
    {
        self.c2_flags.set(ch.index(), true);
    }

    /// The coprocessor acknowledges this core's signal on `ch`.
    pub fn c2_clear_flag_channel(&mut self, ch: IpccChannel)
        requires
            old(self).wf(),
        ensures
            final(self).wf(),
            final(self).c1_flags() == old(self).c1_flags().update(ch.spec_index(), false),
            final(self).c2_flags() == old(self).c2_flags(),
            final(self).rx_enabled() == old(self).rx_enabled(),
            final(self).tx_enabled() == old(self).tx_enabled(),
    {
        self.c1_flags.set(ch.index(), false);
    }
}

} // verus!
