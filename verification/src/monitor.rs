//! The Super I/O monitor: one bus and one detected chip, read atomically.
//!
//! `read_all` performs the fan scan and the temperature scan as one
//! exclusive unit — it takes the monitor by `&mut`, so no other reader
//! can interleave its own register-window selection between the two
//! scans, and the contract pins the appended bus log to exactly the fan
//! block followed by the temperature block. An embedding that shares the
//! monitor between threads wraps it in a mutex and so inherits the same
//! atomicity.

use vstd::prelude::*;

use crate::bus::SioBus;
use crate::chips::{SioSnapshot, SioStatus};
use crate::detect::{
    detect_chip, spec_chip_valid, spec_detected_chip, spec_detected_ite, spec_detected_nuvoton,
    spec_probe_port, Chip,
};
use crate::error::NoCrateError;
use crate::ite::{spec_has_6_fans, spec_ite_fans_ok, spec_ite_temps_ok};
use crate::nuvoton::{spec_fans_ok, spec_temps_ok};

verus! {

/// One driver bus coupled with the chip that was detected on it.
pub struct SioMonitor<B: SioBus> {
    /// The port bus the chip is reached through.
    pub bus: B,
    /// The detected chip.
    pub chip: Chip,
    /// The detected chip's model name.
    pub chip_name: String,
}

impl<B: SioBus> SioMonitor<B> {
    /// A consistent monitor: the chip identity is valid and the cached
    /// name is the chip's.
    pub open spec fn wf(&self) -> bool {
        &&& self.chip.wf()
        &&& spec_chip_valid(self.chip)
        &&& self.chip_name@ == match self.chip {
            Chip::Nuvoton(c) => c.name@,
            Chip::Ite(c) => c.name@,
        }
    }

    /// Detect a chip on the bus and couple the two into a monitor.
    /// Fails when no supported chip answers on either configuration port;
    /// the caller reports the subsystem as unavailable and carries on.
    ///
    /// A monitor is only ever built around a chip the bus really
    /// produced: some suffix of the monitor's bus log is a complete
    /// matching probe of the chip's family on one of the two
    /// configuration ports, and the chip's ID and base address are the
    /// bytes that probe read.
    pub fn init(bus: B) -> (r: Result<SioMonitor<B>, NoCrateError>)
        ensures
            r matches Ok(m) ==> m.wf(),
            r matches Ok(m) ==> spec_detected_chip(m.chip, m.bus.log()),
    {
        let mut bus = bus;
        let ghost pre: Seq<crate::bus::BusOp> = bus.log();
        let chip = match detect_chip(&mut bus) {
            Ok(c) => c,
            Err(e) => return Err(e),
        };
        proof {
            let app = bus.log().skip(pre.len() as int);
            let (n2, port) = choose|n2: int, port: u16|
                #![trigger app.skip(n2), spec_probe_port(port)]
                {
                    &&& 0 <= n2 <= app.len()
                    &&& spec_probe_port(port)
                    &&& match chip {
                        Chip::Nuvoton(c) => spec_detected_nuvoton(port, app.skip(n2), c),
                        Chip::Ite(c) => spec_detected_ite(port, app.skip(n2), c),
                    }
                };
            assert(bus.log().skip(pre.len() as int + n2) =~= app.skip(n2)) by {
                assert forall|m: int|
                    0 <= m < app.len() - n2 implies bus.log().skip(pre.len() as int + n2)[m]
                    == app.skip(n2)[m] by {
                    assert(bus.log().skip(pre.len() as int + n2)[m] == bus.log()[pre.len() as int
                        + n2 + m]);
                    assert(app.skip(n2)[m] == app[n2 + m]);
                    assert(app[n2 + m] == bus.log()[pre.len() as int + n2 + m]);
                }
            }
            assert(0 <= pre.len() as int + n2 <= bus.log().len());
            assert(spec_probe_port(port));
            assert(match chip {
                Chip::Nuvoton(c) => spec_detected_nuvoton(
                    port,
                    bus.log().skip(pre.len() as int + n2),
                    c,
                ),
                Chip::Ite(c) => spec_detected_ite(port, bus.log().skip(pre.len() as int + n2), c),
            });
            assert(spec_detected_chip(chip, bus.log()));
        }
        let chip_name = chip.chip_name().to_owned();
        Ok(SioMonitor { bus, chip, chip_name })
    }

    /// Read every fan and temperature sensor as one atomic snapshot.
    ///
    /// On success the operations appended to the bus log are exactly the
    /// chip's fan scan followed by its temperature scan, contiguously: no
    /// foreign operation stands between one scan's window selections and
    /// the other's, and the snapshot's values decode the bytes those very
    /// operations read.
    pub fn read_all(&mut self) -> (r: Result<SioSnapshot, NoCrateError>)
        requires
            old(self).wf(),
        ensures
            final(self).wf(),
            final(self).chip == old(self).chip,
            final(self).chip_name == old(self).chip_name,
            old(self).bus.log().is_prefix_of(final(self).bus.log()),
            r matches Ok(snap) ==> {
                let app = final(self).bus.log().skip(old(self).bus.log().len() as int);
                &&& snap.chip_name@ == old(self).chip_name@
                &&& match old(self).chip {
                    Chip::Nuvoton(c) => {
                        &&& app.len() == 78
                        &&& spec_fans_ok(c.base_addr, app.take(42), snap.fans@)
                        &&& spec_temps_ok(c.base_addr, app.skip(42), snap.temps@)
                    },
                    Chip::Ite(c) => exists|la: int|
                        {
                            &&& 0 <= la <= app.len()
                            &&& spec_ite_fans_ok(
                                c.base_addr,
                                #[trigger] app.take(la),
                                snap.fans@,
                                if spec_has_6_fans(c.chip_id) {
                                    6int
                                } else {
                                    5int
                                },
                            )
                            &&& spec_ite_temps_ok(c.base_addr, app.skip(la), snap.temps@)
                        },
                }
            },
    {
        let ghost pre = self.bus.log();
        let fans = match self.chip.read_fans(&mut self.bus) {
            Ok(f) => f,
            Err(e) => return Err(e),
        };
        let ghost l1 = self.bus.log();
        let temps = match self.chip.read_temps(&mut self.bus) {
            Ok(t) => t,
            Err(e) => {
                proof {
                    crate::bus::lemma_prefix_trans(pre, l1, self.bus.log());
                }
                return Err(e);
            },
        };
        proof {
            let cur = self.bus.log();
            let app = cur.skip(pre.len() as int);
            let la = l1.len() as int - pre.len() as int;
            assert(l1.is_prefix_of(cur));
            assert forall|m: int| 0 <= m < la implies app[m] == l1.skip(pre.len() as int)[m] by {
                assert(l1[pre.len() as int + m] == l1.subrange(0, l1.len() as int)[pre.len() as int
                    + m]);
                assert(l1[pre.len() as int + m] == cur.subrange(0, l1.len() as int)[pre.len() as int
                    + m]);
                assert(app[m] == cur[pre.len() as int + m]);
            }
            assert(app.take(la) =~= l1.skip(pre.len() as int));
            assert forall|m: int| 0 <= m < cur.len() - l1.len() implies app.skip(la)[m]
                == cur.skip(l1.len() as int)[m] by {
                assert(app.skip(la)[m] == app[la + m]);
                assert(app[la + m] == cur[pre.len() as int + la + m]);
            }
            assert(app.skip(la) =~= cur.skip(l1.len() as int));
            match old(self).chip {
                Chip::Nuvoton(c) => {
                    assert(la == 42);
                    assert(app.take(42) == app.take(la));
                },
                Chip::Ite(c) => {
                    assert(spec_ite_fans_ok(
                        c.base_addr,
                        app.take(la),
                        fans@,
                        if spec_has_6_fans(c.chip_id) {
                            6int
                        } else {
                            5int
                        },
                    ));
                    assert(spec_ite_temps_ok(c.base_addr, app.skip(la), temps@));
                },
            }
            crate::bus::lemma_prefix_trans(pre, l1, cur);
        }
        let chip_name = self.chip_name.as_str().to_owned();
        Ok(SioSnapshot { fans, temps, chip_name })
    }

    /// Availability report: the chip is present and named; no hardware is
    /// touched.
    pub fn status(&self) -> (r: SioStatus)
        ensures
            r.available,
            r.chip_name matches Some(n) && n@ == self.chip_name@,
            r.error is None,
    {
        SioStatus {
            available: true,
            chip_name: Some(self.chip_name.as_str().to_owned()),
            error: None,
        }
    }
}

} // verus!
