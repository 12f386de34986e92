//! The safety checks that come before an image is written to devices.
//!
//! A `WriteSession` decides, one event at a time, what happens next: each
//! target device is validated and named in turn; a device that is not a
//! listed USB device must be confirmed by typing "YES" (unless confirmations
//! are skipped); a listed device must be large enough for the image and is
//! unmounted when mounted; finally the whole operation must be confirmed by
//! typing "yes" (unless skipped). Only then is the write started.
use vstd::prelude::*;
use crate::text::{chars_of, eq_ignore_ascii_case, eq_ignore_ascii_case_range, same_text, trim, trim_range};
use crate::usb::UsbDevice;
use crate::units::{format_size, human_size};

verus! {

/// Whether a typed answer, trimmed, is exactly "YES": the confirmation asked
/// before writing to a device that is not a listed USB device.
pub open spec fn says_yes_in_capitals(answer: Seq<char>) -> bool {
    trim(answer) == seq!['Y', 'E', 'S']
}

/// Whether a typed answer, trimmed and lower-cased, is "yes": the final
/// confirmation. Only the ASCII letters lower-case to 'y', 'e' and 's', so
/// this is the ASCII-case-insensitive comparison.
pub open spec fn says_yes(answer: Seq<char>) -> bool {
    eq_ignore_ascii_case(trim(answer), seq!['y', 'e', 's'])
}

pub fn confirms_in_capitals(answer: &str) -> (r: bool)
    ensures
        r == says_yes_in_capitals(answer@),
{
    let v = chars_of(answer);
    let (i, j) = trim_range(&v, 0, v.len());
    assert(v@.subrange(0, v.len() as int) =~= v@);
    let ghost t = v@.subrange(i as int, j as int);
    if j - i == 3 && v[i] == 'Y' && v[i + 1] == 'E' && v[i + 2] == 'S' {
        assert(t =~= seq!['Y', 'E', 'S']);
        true
    } else {
        proof {
            if t == seq!['Y', 'E', 'S'] {
                assert(t.len() == 3);
                assert(t[0] == v@[i as int]);
                assert(t[1] == v@[i + 1]);
                assert(t[2] == v@[i + 2]);
            }
        }
        false
    }
}

pub fn confirms(answer: &str) -> (r: bool)
    ensures
        r == says_yes(answer@),
{
    let v = chars_of(answer);
    let (i, j) = trim_range(&v, 0, v.len());
    assert(v@.subrange(0, v.len() as int) =~= v@);
    let mut yes: Vec<char> = Vec::new();
    yes.push('y');
    yes.push('e');
    yes.push('s');
    assert(yes@ =~= seq!['y', 'e', 's']);
    eq_ignore_ascii_case_range(&v, i, j, &yes)
}

/// The first listed USB device named `name`.
pub open spec fn find_listed(usb: Seq<UsbDevice>, name: Seq<char>) -> Option<UsbDevice>
    decreases usb.len(),
{
    if usb.len() == 0 {
        None
    } else if usb[0].name@ == name {
        Some(usb[0])
    } else {
        find_listed(usb.drop_first(), name)
    }
}

/// Finds the first listed USB device named `name`.
pub fn find_listed_device(usb: &Vec<UsbDevice>, name: &str) -> (r: Option<usize>)
    ensures
        match r {
            Some(i) => i < usb.len() && find_listed(usb@, name@) == Some(usb@[i as int]),
            None => find_listed(usb@, name@) is None,
        },
{
    let mut i: usize = 0;
    assert(usb@.skip(0) =~= usb@);
    while i < usb.len()
        invariant
            i <= usb.len(),
            find_listed(usb@, name@) == find_listed(usb@.skip(i as int), name@),
        decreases usb.len() - i,
    {
        assert(usb@.skip(i as int)[0] == usb@[i as int]);
        if same_text(usb[i].name.as_str(), name) {
            return Some(i);
        }
        assert(usb@.skip(i as int).drop_first() =~= usb@.skip(i + 1));
        i = i + 1;
    }
    assert(usb@.skip(i as int).len() == 0);
    None
}

/// Why a session stopped with an error.
#[derive(Debug, Clone, Copy, PartialEq, Eq)]
pub enum SessionError {
    /// The image does not fit on the device with this index.
    ImageTooLarge { device: usize, iso_size: u64, device_size: u64 },
}

/// What has to happen next.
#[derive(Debug, Clone, Copy, PartialEq, Eq)]
pub enum SessionStep {
    /// Validate the target device with this index and report its name.
    ValidateDevice(usize),
    /// Warn that this device is not a listed USB device and ask for "YES".
    ConfirmNotUsb(usize),
    /// Unmount the partitions of this device.
    Unmount(usize),
    /// Show the final warning and ask for "yes".
    ConfirmErase,
    /// All checks passed: write the image.
    StartWrite,
    /// The user did not confirm: stop without writing.
    Cancelled,
    /// A check failed: stop with this error.
    Failed(SessionError),
}

/// The checks that a device has passed once the session has moved past it.
pub open spec fn device_cleared(
    usb: Seq<UsbDevice>,
    iso_size: u64,
    skip_confirm: bool,
    name: Seq<char>,
    confirmed_not_usb: bool,
    unmounted: bool,
) -> bool {
    match find_listed(usb, name) {
        Some(d) => iso_size <= d.size && (d.is_mounted ==> unmounted),
        None => skip_confirm || confirmed_not_usb,
    }
}

/// The state of the checks before a write.
pub struct WriteSession {
    iso_size: u64,
    device_count: usize,
    usb_devices: Vec<UsbDevice>,
    skip_confirm: bool,
    names: Vec<String>,
    step: SessionStep,
    confirmed_not_usb: Ghost<Seq<bool>>,
    unmounted: Ghost<Seq<bool>>,
    erase_confirmed: Ghost<bool>,
}

impl WriteSession {
    pub closed spec fn step(&self) -> SessionStep {
        self.step
    }

    pub closed spec fn iso_size(&self) -> u64 {
        self.iso_size
    }

    pub closed spec fn device_count(&self) -> nat {
        self.device_count as nat
    }

    pub closed spec fn usb_devices(&self) -> Seq<UsbDevice> {
        self.usb_devices@
    }

    pub closed spec fn skip_confirm(&self) -> bool {
        self.skip_confirm
    }

    /// The names reported for the devices checked so far, in order.
    pub closed spec fn names(&self) -> Seq<Seq<char>> {
        self.names.deep_view()
    }

    /// For each device checked so far, whether "YES" was typed for it.
    pub closed spec fn confirmed_not_usb(&self) -> Seq<bool> {
        self.confirmed_not_usb@
    }

    /// For each device checked so far, whether it was unmounted.
    pub closed spec fn unmounted(&self) -> Seq<bool> {
        self.unmounted@
    }

    /// Whether "yes" was typed at the final warning.
    pub closed spec fn erase_confirmed(&self) -> bool {
        self.erase_confirmed@
    }

    /// Device `j` has passed its checks.
    pub open spec fn cleared(&self, j: int) -> bool {
        device_cleared(
            self.usb_devices(),
            self.iso_size(),
            self.skip_confirm(),
            self.names()[j],
            self.confirmed_not_usb()[j],
            self.unmounted()[j],
        )
    }

    /// The number of devices whose checks are over.
    pub open spec fn passed(&self) -> nat {
        match self.step() {
            SessionStep::ValidateDevice(i) => i as nat,
            SessionStep::ConfirmNotUsb(i) => i as nat,
            SessionStep::Unmount(i) => i as nat,
            SessionStep::Failed(SessionError::ImageTooLarge { device, .. }) => device as nat,
            SessionStep::Cancelled => 0,
            _ => self.device_count(),
        }
    }

    pub closed spec fn wf(&self) -> bool {
        &&& self.confirmed_not_usb@.len() == self.names.len()
        &&& self.unmounted@.len() == self.names.len()
        &&& self.names.len() <= self.device_count
        &&& self.passed() <= self.names.len()
        &&& forall|j: int| 0 <= j < self.passed() ==> #[trigger] self.cleared(j)
        &&& match self.step {
            SessionStep::ValidateDevice(i) => i == self.names.len() && i < self.device_count,
            SessionStep::ConfirmNotUsb(i) => {
                &&& i + 1 == self.names.len()
                &&& !self.unmounted@[i as int]
                &&& find_listed(self.usb_devices@, self.names.deep_view()[i as int]) is None
                &&& !self.skip_confirm
            },
            SessionStep::Unmount(i) => {
                &&& i + 1 == self.names.len()
                &&& find_listed(self.usb_devices@, self.names.deep_view()[i as int]) matches Some(d)
                    && self.iso_size <= d.size && d.is_mounted
            },
            SessionStep::ConfirmErase => self.names.len() == self.device_count && !self.skip_confirm,
            SessionStep::StartWrite => {
                &&& self.names.len() == self.device_count
                &&& self.skip_confirm || self.erase_confirmed@
            },
            SessionStep::Cancelled => true,
            SessionStep::Failed(SessionError::ImageTooLarge { device, iso_size, device_size }) => {
                &&& device + 1 == self.names.len()
                &&& iso_size == self.iso_size
                &&& find_listed(self.usb_devices@, self.names.deep_view()[device as int]) matches Some(d)
                    && d.size == device_size && device_size < iso_size
            },
        }
    }

    /// The step after the checks of device `i` are over.
    fn advance(&mut self, i: usize)
        requires
            i < old(self).device_count,
        ensures
            final(self).iso_size == old(self).iso_size,
            final(self).device_count == old(self).device_count,
            final(self).usb_devices == old(self).usb_devices,
            final(self).skip_confirm == old(self).skip_confirm,
            final(self).names == old(self).names,
            final(self).confirmed_not_usb == old(self).confirmed_not_usb,
            final(self).unmounted == old(self).unmounted,
            final(self).erase_confirmed == old(self).erase_confirmed,
            i + 1 < old(self).device_count ==> final(self).step == SessionStep::ValidateDevice(
                (i + 1) as usize,
            ),
            i + 1 == old(self).device_count && old(self).skip_confirm ==> final(self).step
                == SessionStep::StartWrite,
            i + 1 == old(self).device_count && !old(self).skip_confirm ==> final(self).step
                == SessionStep::ConfirmErase,
    {
        if i + 1 < self.device_count {
            self.step = SessionStep::ValidateDevice(i + 1);
        } else if self.skip_confirm {
            self.step = SessionStep::StartWrite;
        } else {
            self.step = SessionStep::ConfirmErase;
        }
    }

    /// Starts the checks for writing an image of `iso_size` bytes to
    /// `device_count` devices, given the USB devices found on the system.
    pub fn new(iso_size: u64, device_count: usize, usb_devices: Vec<UsbDevice>, skip_confirm: bool) -> (s:
        Self)
        ensures
            s.wf(),
            s.iso_size() == iso_size,
            s.device_count() == device_count,
            s.usb_devices() == usb_devices@,
            s.skip_confirm() == skip_confirm,
            s.names().len() == 0,
            device_count > 0 ==> s.step() == SessionStep::ValidateDevice(0),
            device_count == 0 && skip_confirm ==> s.step() == SessionStep::StartWrite,
            device_count == 0 && !skip_confirm ==> s.step() == SessionStep::ConfirmErase,
    {
        let step = if device_count > 0 {
            SessionStep::ValidateDevice(0)
        } else if skip_confirm {
            SessionStep::StartWrite
        } else {
            SessionStep::ConfirmErase
        };
        let s = WriteSession {
            iso_size,
            device_count,
            usb_devices,
            skip_confirm,
            names: Vec::new(),
            step,
            confirmed_not_usb: Ghost(Seq::empty()),
            unmounted: Ghost(Seq::empty()),
            erase_confirmed: Ghost(false),
        };
        assert(s.names.deep_view() =~= Seq::<Seq<char>>::empty());
        s
    }

    /// What has to happen next.
    pub fn next_step(&self) -> (s: SessionStep)
        ensures
            s == self.step(),
    {
        self.step
    }

    /// The checks of a listed device (or none) once it has been named.
    fn check_listed(&mut self, i: usize)
        requires
            old(self).confirmed_not_usb@.len() == old(self).names.len(),
            old(self).unmounted@.len() == old(self).names.len(),
            i + 1 == old(self).names.len(),
            i < old(self).device_count,
            forall|j: int| 0 <= j < i ==> #[trigger] old(self).cleared(j),
            find_listed(old(self).usb_devices@, old(self).names.deep_view()[i as int]) is None
                ==> old(self).skip_confirm || old(self).confirmed_not_usb@[i as int],
            !old(self).unmounted@[i as int],
        ensures
            final(self).wf(),
            final(self).names == old(self).names,
            final(self).usb_devices == old(self).usb_devices,
            final(self).iso_size == old(self).iso_size,
            final(self).device_count == old(self).device_count,
            final(self).skip_confirm == old(self).skip_confirm,
            final(self).confirmed_not_usb == old(self).confirmed_not_usb,
            final(self).unmounted == old(self).unmounted,
            final(self).erase_confirmed == old(self).erase_confirmed,
            match find_listed(old(self).usb_devices@, old(self).names.deep_view()[i as int]) {
                Some(d) => if old(self).iso_size > d.size {
                    final(self).step == SessionStep::Failed(
                        SessionError::ImageTooLarge {
                            device: i,
                            iso_size: old(self).iso_size,
                            device_size: d.size,
                        },
                    )
                } else if d.is_mounted {
                    final(self).step == SessionStep::Unmount(i)
                } else {
                    final(self).step == (if i + 1 < old(self).device_count {
                        SessionStep::ValidateDevice((i + 1) as usize)
                    } else if old(self).skip_confirm {
                        SessionStep::StartWrite
                    } else {
                        SessionStep::ConfirmErase
                    })
                },
                None => final(self).step == (if i + 1 < old(self).device_count {
                    SessionStep::ValidateDevice((i + 1) as usize)
                } else if old(self).skip_confirm {
                    SessionStep::StartWrite
                } else {
                    SessionStep::ConfirmErase
                }),
            },
    {
        let name = self.names[i].as_str();
        match find_listed_device(&self.usb_devices, name) {
            Some(k) => {
                let size = self.usb_devices[k].size;
                if self.iso_size > size {
                    self.step = SessionStep::Failed(
                        SessionError::ImageTooLarge { device: i, iso_size: self.iso_size, device_size: size },
                    );
                } else if self.usb_devices[k].is_mounted {
                    self.step = SessionStep::Unmount(i);
                } else {
                    self.advance(i);
                }
            },
            None => {
                self.advance(i);
            },
        }
        proof {
            assert forall|j: int| 0 <= j < self.passed() implies #[trigger] self.cleared(j) by {
                if j < i {
                    assert(old(self).cleared(j));
                }
            }
        }
    }

    /// Reports the name of the device being validated (its file name, e.g.
    /// "sdb"). A device that is not a listed USB device must then be
    /// confirmed, unless confirmations are skipped; a listed one is checked
    /// for size and, when mounted, unmounted.
    pub fn device_checked(&mut self, name: &str)
        requires
            old(self).wf(),
            old(self).step() is ValidateDevice,
        ensures
            final(self).wf(),
            final(self).names() == old(self).names().push(name@),
            final(self).iso_size() == old(self).iso_size(),
            final(self).device_count() == old(self).device_count(),
            final(self).usb_devices() == old(self).usb_devices(),
            final(self).skip_confirm() == old(self).skip_confirm(),
            ({
                let i = old(self).step()->ValidateDevice_0;
                match find_listed(old(self).usb_devices(), name@) {
                    None => if old(self).skip_confirm() {
                        final(self).step() == (if i + 1 < old(self).device_count() {
                            SessionStep::ValidateDevice((i + 1) as usize)
                        } else {
                            SessionStep::StartWrite
                        })
                    } else {
                        final(self).step() == SessionStep::ConfirmNotUsb(i)
                    },
                    Some(d) => if old(self).iso_size() > d.size {
                        final(self).step() == SessionStep::Failed(
                            SessionError::ImageTooLarge {
                                device: i,
                                iso_size: old(self).iso_size(),
                                device_size: d.size,
                            },
                        )
                    } else if d.is_mounted {
                        final(self).step() == SessionStep::Unmount(i)
                    } else {
                        final(self).step() == (if i + 1 < old(self).device_count() {
                            SessionStep::ValidateDevice((i + 1) as usize)
                        } else if old(self).skip_confirm() {
                            SessionStep::StartWrite
                        } else {
                            SessionStep::ConfirmErase
                        })
                    },
                }
            }),
    {
        let i = match self.step {
            SessionStep::ValidateDevice(i) => i,
            _ => {
                return;
            },
        };
        let ghost before = self.names.deep_view();
        self.names.push(String::from_str(name));
        assert(self.names.deep_view() =~= before.push(name@));
        self.confirmed_not_usb = Ghost(self.confirmed_not_usb@.push(false));
        self.unmounted = Ghost(self.unmounted@.push(false));
        let listed = find_listed_device(&self.usb_devices, name);
        if listed.is_none() && !self.skip_confirm {
            self.step = SessionStep::ConfirmNotUsb(i);
            proof {
                assert forall|j: int| 0 <= j < self.passed() implies #[trigger] self.cleared(j) by {
                    assert(old(self).cleared(j));
                    assert(self.names()[j] == old(self).names()[j]);
                }
            }
        } else {
            proof {
                assert forall|j: int| 0 <= j < i implies #[trigger] self.cleared(j) by {
                    assert(old(self).cleared(j));
                    assert(self.names()[j] == old(self).names()[j]);
                }
            }
            self.check_listed(i);
        }
    }

    /// Reports the answer typed at a confirmation prompt. At the prompt for a
    /// device that is not a listed USB device only "YES" (trimmed) goes on;
    /// at the final warning only "yes" (trimmed, any case). Anything else
    /// cancels the session.
    pub fn answered(&mut self, answer: &str)
        requires
            old(self).wf(),
            old(self).step() is ConfirmNotUsb || old(self).step() is ConfirmErase,
        ensures
            final(self).wf(),
            final(self).names() == old(self).names(),
            final(self).iso_size() == old(self).iso_size(),
            final(self).device_count() == old(self).device_count(),
            final(self).usb_devices() == old(self).usb_devices(),
            final(self).skip_confirm() == old(self).skip_confirm(),
            old(self).step() is ConfirmNotUsb ==> ({
                let i = old(self).step()->ConfirmNotUsb_0;
                if says_yes_in_capitals(answer@) {
                    final(self).step() == (if i + 1 < old(self).device_count() {
                        SessionStep::ValidateDevice((i + 1) as usize)
                    } else {
                        SessionStep::ConfirmErase
                    })
                } else {
                    final(self).step() == SessionStep::Cancelled
                }
            }),
            old(self).step() is ConfirmErase ==> (if says_yes(answer@) {
                final(self).step() == SessionStep::StartWrite
            } else {
                final(self).step() == SessionStep::Cancelled
            }),
    {
        match self.step {
            SessionStep::ConfirmNotUsb(i) => {
                if confirms_in_capitals(answer) {
                    let ghost before = self.confirmed_not_usb@;
                    self.confirmed_not_usb = Ghost(self.confirmed_not_usb@.update(i as int, true));
                    proof {
                        assert forall|j: int| 0 <= j < i implies #[trigger] self.cleared(j) by {
                            assert(old(self).cleared(j));
                        }
                    }
                    self.check_listed(i);
                } else {
                    self.step = SessionStep::Cancelled;
                }
            },
            SessionStep::ConfirmErase => {
                if confirms(answer) {
                    self.erase_confirmed = Ghost(true);
                    self.step = SessionStep::StartWrite;
                } else {
                    self.step = SessionStep::Cancelled;
                }
                proof {
                    assert forall|j: int| 0 <= j < self.passed() implies #[trigger] self.cleared(j) by {
                        assert(old(self).cleared(j));
                    }
                }
            },
            _ => {},
        }
    }

    /// Reports that the partitions of the device being checked are unmounted.
    pub fn unmounted_device(&mut self)
        requires
            old(self).wf(),
            old(self).step() is Unmount,
        ensures
            final(self).wf(),
            final(self).names() == old(self).names(),
            final(self).iso_size() == old(self).iso_size(),
            final(self).device_count() == old(self).device_count(),
            final(self).usb_devices() == old(self).usb_devices(),
            final(self).skip_confirm() == old(self).skip_confirm(),
            ({
                let i = old(self).step()->Unmount_0;
                final(self).step() == (if i + 1 < old(self).device_count() {
                    SessionStep::ValidateDevice((i + 1) as usize)
                } else if old(self).skip_confirm() {
                    SessionStep::StartWrite
                } else {
                    SessionStep::ConfirmErase
                })
            }),
    {
        match self.step {
            SessionStep::Unmount(i) => {
                self.unmounted = Ghost(self.unmounted@.update(i as int, true));
                self.advance(i);
                proof {
                    assert forall|j: int| 0 <= j < self.passed() implies #[trigger] self.cleared(j) by {
                        if j < i {
                            assert(old(self).cleared(j));
                        }
                    }
                }
            },
            _ => {},
        }
    }
}

/// Law: a write starts only once every target device has passed its checks
/// (a listed USB device is large enough for the image and, when mounted,
/// was unmounted; any other device was confirmed with "YES" or confirmations
/// were skipped) and the final warning was confirmed (or skipped). The image
/// size, the device count, the listed USB devices and the choice to skip
/// confirmations are those given to `new`: every step keeps them.
pub proof fn lemma_write_starts_only_when_cleared(s: &WriteSession)
    requires
        s.wf(),
        s.step() == SessionStep::StartWrite,
    ensures
        s.names().len() == s.device_count(),
        forall|j: int| 0 <= j < s.device_count() ==> #[trigger] s.cleared(j),
        s.skip_confirm() || s.erase_confirmed(),
{
}

/// Law: a session fails only on a listed USB device that is smaller than
/// the image, and reports the sizes it compared.
pub proof fn lemma_failure_means_too_small(s: &WriteSession)
    requires
        s.wf(),
        s.step() is Failed,
    ensures
        ({
            let e = s.step()->Failed_0;
            match e {
                SessionError::ImageTooLarge { device, iso_size, device_size } => {
                    &&& device < s.names().len()
                    &&& iso_size == s.iso_size()
                    &&& device_size < iso_size
                    &&& find_listed(s.usb_devices(), s.names()[device as int]) matches Some(d)
                        && d.size == device_size
                },
            }
        }),
{
}

/// The size shown for a target device in the final warning: its size when
/// it is a listed USB device, else 0.
pub open spec fn listed_size(usb: Seq<UsbDevice>, name: Seq<char>) -> nat {
    match find_listed(usb, name) {
        Some(d) => d.size as nat,
        None => 0,
    }
}

/// The lines that list the target devices in the final warning.
pub open spec fn erase_targets(targets: Seq<(Seq<char>, Seq<char>)>, usb: Seq<UsbDevice>) -> Seq<char>
    decreases targets.len(),
{
    if targets.len() == 0 {
        seq![]
    } else {
        erase_targets(targets.drop_last(), usb) + "   - "@ + targets.last().0 + " ("@ + human_size(
            listed_size(usb, targets.last().1),
        ) + ")\n"@
    }
}

/// The first listed device named `name` is at index `i`.
proof fn lemma_find_listed_first(usb: Seq<UsbDevice>, name: Seq<char>, i: int)
    requires
        0 <= i < usb.len(),
        usb[i].name@ == name,
        forall|j: int| 0 <= j < i ==> (#[trigger] usb[j]).name@ != name,
    ensures
        find_listed(usb, name) == Some(usb[i]),
    decreases usb.len(),
{
    if i > 0 {
        assert(usb[0].name@ != name);
        assert forall|j: int| 0 <= j < i - 1 implies (#[trigger] usb.drop_first()[j]).name@ != name by {
            assert(usb.drop_first()[j] == usb[j + 1]);
        }
        assert(usb.drop_first()[i - 1] == usb[i]);
        lemma_find_listed_first(usb.drop_first(), name, i - 1);
    }
}

/// No listed device is named `name`.
proof fn lemma_find_listed_none(usb: Seq<UsbDevice>, name: Seq<char>)
    requires
        forall|j: int| 0 <= j < usb.len() ==> (#[trigger] usb[j]).name@ != name,
    ensures
        find_listed(usb, name) is None,
    decreases usb.len(),
{
    if usb.len() > 0 {
        assert(usb[0].name@ != name);
        assert forall|j: int| 0 <= j < usb.len() - 1 implies (#[trigger] usb.drop_first()[j]).name@ != name by {
            assert(usb.drop_first()[j] == usb[j + 1]);
        }
        lemma_find_listed_none(usb.drop_first(), name);
    }
}

/// Law: the size shown for a target is the size of the first listed USB
/// device with the target's name, and 0 when no listed device has it.
pub proof fn lemma_listed_size_is_size_of_named_device(usb: Seq<UsbDevice>, name: Seq<char>, i: int)
    requires
        0 <= i < usb.len(),
        usb[i].name@ == name,
        forall|j: int| 0 <= j < i ==> (#[trigger] usb[j]).name@ != name,
    ensures
        listed_size(usb, name) == usb[i].size,
{
    lemma_find_listed_first(usb, name, i);
}

/// Law: when no listed USB device has the target's name, its size is shown
/// as 0.
pub proof fn lemma_listed_size_of_unlisted_device(usb: Seq<UsbDevice>, name: Seq<char>)
    requires
        forall|j: int| 0 <= j < usb.len() ==> (#[trigger] usb[j]).name@ != name,
    ensures
        listed_size(usb, name) == 0,
{
    lemma_find_listed_none(usb, name);
}

/// Law: in the final warning, one more target adds the line that shows its
/// path with the size of the listed device of its name (the first one
/// listed under that name).
pub proof fn lemma_erase_target_line_shows_its_device(
    targets: Seq<(Seq<char>, Seq<char>)>,
    target: (Seq<char>, Seq<char>),
    usb: Seq<UsbDevice>,
    i: int,
)
    requires
        0 <= i < usb.len(),
        usb[i].name@ == target.1,
        forall|j: int| 0 <= j < i ==> (#[trigger] usb[j]).name@ != target.1,
    ensures
        erase_targets(targets.push(target), usb) == erase_targets(targets, usb) + "   - "@ + target.0
            + " ("@ + human_size(usb[i].size as nat) + ")\n"@,
{
    lemma_find_listed_first(usb, target.1, i);
    assert(targets.push(target).drop_last() =~= targets);
}

/// The final warning before a write: the devices that will be erased (each
/// shown by its path, with its size), the image and its size, and a note in
/// resume mode, between rules of 60 '='.
pub open spec fn erase_warning_text(
    targets: Seq<(Seq<char>, Seq<char>)>,
    usb: Seq<UsbDevice>,
    iso: Seq<char>,
    iso_size: u64,
    resume: bool,
) -> Seq<char> {
    "\n============================================================\n"@ + "⚠️  FINAL WARNING ⚠️\n"@ + "============================================================\n"@ + "\n"@ + "This will COMPLETELY ERASE all data on the following devices:\n"@ + erase_targets(targets, usb) + "\n"@
        + "And write:\n"@ + "   ISO:    "@ + iso + "\n"@ + "   Size:   "@ + human_size(iso_size as nat) + "\n"@ + (
    if resume {
        "\n   [Resume Mode] Will skip writing data that already matches.\n"@
    } else {
        seq![]
    }) + "\n"@ + "============================================================\n"@
}

/// The final warning before a write. Each target is given as the path to
/// show and the device's name.
pub fn erase_warning(
    targets: &Vec<(String, String)>,
    usb: &Vec<UsbDevice>,
    iso: &str,
    iso_size: u64,
    resume: bool,
) -> (s: String)
    ensures
        s@ == erase_warning_text(targets.deep_view(), usb@, iso@, iso_size, resume),
{
    let mut out = String::new();
    out.append("\n============================================================\n");
    out.append("⚠️  FINAL WARNING ⚠️\n");
    out.append("============================================================\n");
    out.append("\n");
    out.append("This will COMPLETELY ERASE all data on the following devices:\n");
    let ghost start = out@;
    let mut i: usize = 0;
    assert(targets.deep_view().take(0) =~= Seq::<(Seq<char>, Seq<char>)>::empty());
    while i < targets.len()
        invariant
            i <= targets.len(),
            out@ == start + erase_targets(targets.deep_view().take(i as int), usb@),
        decreases targets.len() - i,
    {
        let ghost before = out@;
        out.append("   - ");
        out.append(targets[i].0.as_str());
        out.append(" (");
        let size = match find_listed_device(usb, targets[i].1.as_str()) {
            Some(k) => usb[k].size,
            None => 0,
        };
        let shown = format_size(size);
        out.append(shown.as_str());
        out.append(")\n");
        let ghost t = targets.deep_view();
        assert(t[i as int] == (targets@[i as int].0@, targets@[i as int].1@));
        assert(t.take((i + 1) as int).drop_last() =~= t.take(i as int));
        assert(size == listed_size(usb@, t[i as int].1));
        assert(out@ =~= start + erase_targets(t.take((i + 1) as int), usb@));
        i = i + 1;
    }
    assert(targets.deep_view().take(targets.len() as int) =~= targets.deep_view());
    let ghost mid = out@;
    out.append("\n");
    out.append("And write:\n");
    out.append("   ISO:    ");
    out.append(iso);
    out.append("\n");
    out.append("   Size:   ");
    let iso_shown = format_size(iso_size);
    out.append(iso_shown.as_str());
    out.append("\n");
    if resume {
        out.append("\n   [Resume Mode] Will skip writing data that already matches.\n");
    }
    out.append("\n");
    out.append("============================================================\n");
    assert(out@ =~= erase_warning_text(targets.deep_view(), usb@, iso@, iso_size, resume));
    out
}

} // verus!
