//! The virtual machine: what it is made of, how its failures are reported, and how the thread that
//! owns it answers commands.

use vstd::prelude::*;

use crate::error::Error;
use crate::text::{concat2, opt_text, texts};

verus! {

// ---------------------------------------------------------------- configuration

/// What the virtual machine is to be.
#[derive(Debug, Clone, PartialEq, Eq)]
pub struct VmPlan {
    pub kernel: String,
    pub initrd: String,
    pub rootfs: Option<String>,
    pub cmdline: String,
    pub vcpus: u32,
    pub memory_bytes: u64,
    pub serial_log: String,
    pub use_nat: bool,
    /// The names of the console ports, one for each mount.
    pub ports: Vec<String>,
    /// The name of the thread that owns the machine.
    pub thread_name: String,
}

/// A device of the virtual machine.
#[derive(Debug, Clone, PartialEq, Eq)]
pub enum Device {
    /// A serial console that is written to the file.
    SerialLog(String),
    /// A console device with ports of these names, in their order.
    ConsolePorts(Vec<String>),
    /// A source of randomness.
    Entropy,
    /// A disk with the contents of the file.
    Disk { path: String, read_only: bool },
    /// A network card behind address translation.
    Nat,
}

/// A device, with texts in place of strings.
pub enum DeviceView {
    SerialLog(Seq<char>),
    ConsolePorts(Seq<Seq<char>>),
    Entropy,
    Disk { path: Seq<char>, read_only: bool },
    Nat,
}

impl View for Device {
    type V = DeviceView;

    open spec fn view(&self) -> DeviceView {
        match self {
            Device::SerialLog(p) => DeviceView::SerialLog(p@),
            Device::ConsolePorts(names) => DeviceView::ConsolePorts(texts(names@)),
            Device::Entropy => DeviceView::Entropy,
            Device::Disk { path, read_only } => DeviceView::Disk {
                path: path@,
                read_only: *read_only,
            },
            Device::Nat => DeviceView::Nat,
        }
    }
}

/// The devices of a machine: the serial console, the console ports where there are mounts, the
/// source of randomness, the root file system where there is one, as a disk that is only read, and
/// the network where it is wanted. No directory of the host is shared.
pub open spec fn devices_of(p: VmPlan) -> Seq<DeviceView> {
    seq![DeviceView::SerialLog(p.serial_log@)] + (if p.ports@.len() > 0 {
        seq![DeviceView::ConsolePorts(texts(p.ports@))]
    } else {
        Seq::empty()
    }) + seq![DeviceView::Entropy] + (match p.rootfs {
        Some(r) => seq![DeviceView::Disk { path: r@, read_only: true }],
        None => Seq::empty(),
    }) + (if p.use_nat {
        seq![DeviceView::Nat]
    } else {
        Seq::empty()
    })
}

/// The same strings again.
fn copied_strings(v: &Vec<String>) -> (r: Vec<String>)
    ensures
        r@ == v@,
{
    let mut r: Vec<String> = Vec::new();
    let mut i: usize = 0;
    while i < v.len()
        invariant
            i <= v@.len(),
            r@ == v@.take(i as int),
        decreases v@.len() - i,
    {
        r.push(v[i].clone());
        i += 1;
        assert(r@ =~= v@.take(i as int));
    }
    assert(v@.take(v@.len() as int) =~= v@);
    r
}

impl VmPlan {
    /// The devices of the machine.
    pub fn devices(&self) -> (r: Vec<Device>)
        ensures
            r@.map_values(|d: Device| d@) == devices_of(*self),
    {
        let mut r: Vec<Device> = Vec::new();
        r.push(Device::SerialLog(self.serial_log.clone()));
        if self.ports.len() > 0 {
            r.push(Device::ConsolePorts(copied_strings(&self.ports)));
        }
        r.push(Device::Entropy);
        if let Some(p) = &self.rootfs {
            r.push(Device::Disk { path: p.clone(), read_only: true });
        }
        if self.use_nat {
            r.push(Device::Nat);
        }
        assert(r@.map_values(|d: Device| d@) =~= devices_of(*self));
        r
    }
}

/// Without mounts there is no console device, and without user-mode network no network card. The
/// only disk is the root file system, and the guest cannot write to it.
pub proof fn devices_are_as_wanted(p: VmPlan, d: DeviceView)
    requires
        devices_of(p).contains(d),
    ensures
        d is ConsolePorts ==> p.ports@.len() > 0 && d == DeviceView::ConsolePorts(texts(p.ports@)),
        d is Nat ==> p.use_nat,
        d is Disk ==> opt_text(p.rootfs) == Some(d->path) && d->read_only,
{
}

// ---------------------------------------------------------------- failures

/// Where making or running the machine can fail.
#[derive(Debug, Clone, Copy, PartialEq, Eq, Structural)]
pub enum VmStage {
    KernelPath,
    InitrdPath,
    RootfsPath,
    RootfsAttach,
    Validate,
    Start,
    Stop,
}

/// What the report of a failure begins with.
pub open spec fn stage_text(stage: VmStage) -> Seq<char> {
    match stage {
        VmStage::KernelPath => "kernel path: "@,
        VmStage::InitrdPath => "initrd path: "@,
        VmStage::RootfsPath => "rootfs: "@,
        VmStage::RootfsAttach => "rootfs attach: "@,
        VmStage::Validate => "VZ config invalid: "@,
        VmStage::Start => "VM start: "@,
        VmStage::Stop => "VM stop: "@,
    }
}

/// The failure lies in the configuration, and not with the hypervisor.
pub open spec fn is_config_stage(stage: VmStage) -> bool {
    stage is KernelPath || stage is InitrdPath || stage is RootfsPath || stage is Validate
}

/// The error for a failure.
pub open spec fn is_vm_error(e: Error, stage: VmStage, detail: Seq<char>) -> bool {
    if is_config_stage(stage) {
        e matches Error::Config(m) && m@ == stage_text(stage) + detail
    } else {
        e matches Error::Hypervisor(m) && m@ == stage_text(stage) + detail
    }
}

/// The error for a failure.
pub fn vm_error(stage: VmStage, detail: &str) -> (r: Error)
    ensures
        is_vm_error(r, stage, detail@),
{
    match stage {
        VmStage::KernelPath => Error::Config(concat2("kernel path: ", detail)),
        VmStage::InitrdPath => Error::Config(concat2("initrd path: ", detail)),
        VmStage::RootfsPath => Error::Config(concat2("rootfs: ", detail)),
        VmStage::RootfsAttach => Error::Hypervisor(concat2("rootfs attach: ", detail)),
        VmStage::Validate => Error::Config(concat2("VZ config invalid: ", detail)),
        VmStage::Start => Error::Hypervisor(concat2("VM start: ", detail)),
        VmStage::Stop => Error::Hypervisor(concat2("VM stop: ", detail)),
    }
}

/// Reads what the framework reported of the start; nothing was reported where the report was
/// dropped.
pub fn start_outcome(report: Option<Result<(), String>>) -> (r: Result<(), Error>)
    ensures
        match report {
            Some(Ok(_)) => r is Ok,
            Some(Err(m)) => r matches Err(e) && is_vm_error(e, VmStage::Start, m@),
            None => r matches Err(Error::Hypervisor(m)) && m@ == "VM start completion dropped"@,
        },
{
    match report {
        Some(Ok(_)) => Ok(()),
        Some(Err(m)) => Err(vm_error(VmStage::Start, m.as_str())),
        None => Err(Error::Hypervisor("VM start completion dropped".to_owned())),
    }
}

/// How long a machine that accepted the request to stop is left alone, in seconds.
pub const STOP_GRACE_SECS: u64 = 2;

/// How long the report of the stop is waited for, in seconds.
pub const STOP_TIMEOUT_SECS: u64 = 5;

/// Reads what the framework reported of the stop; nothing was reported where the time ran out.
pub fn stop_outcome(report: Option<Result<(), String>>) -> (r: Result<(), Error>)
    ensures
        match report {
            Some(Ok(_)) => r is Ok,
            Some(Err(m)) => r matches Err(e) && is_vm_error(e, VmStage::Stop, m@),
            None => r matches Err(Error::Hypervisor(m)) && m@ == "VM stop timed out"@,
        },
{
    match report {
        Some(Ok(_)) => Ok(()),
        Some(Err(m)) => Err(vm_error(VmStage::Stop, m.as_str())),
        None => Err(Error::Hypervisor("VM stop timed out".to_owned())),
    }
}

// ---------------------------------------------------------------- commands

/// A command to the thread that owns the machine. A `W` is whom to answer.
pub enum VmCmd<W> {
    /// Stop the machine and say how that went.
    Stop(W),
    /// Say when the machine has stopped.
    Wait(W),
    /// Stop the machine and end the thread.
    Shutdown,
}

/// An answer and whom it is for.
pub struct Notice<W> {
    pub to: W,
    pub result: Result<(), Error>,
}

/// For what the machine is asked to stop.
pub enum Asker<W> {
    Stop(W),
    Shutdown,
}

/// What the thread does next.
pub enum VmStep<W> {
    /// Give these answers and take the next command.
    Answer(Vec<Notice<W>>),
    /// Ask the machine to stop and report how that went.
    RequestStop(Asker<W>),
    /// Give these answers and end.
    End(Vec<Notice<W>>),
}

/// The thread that owns the machine: whether the machine has stopped, and who waits for that.
pub struct VmLoop<W> {
    stopped: bool,
    waiters: Vec<W>,
}

/// What the thread knows.
#[verifier::ext_equal]
pub struct LoopView<W> {
    pub stopped: bool,
    pub waiters: Seq<W>,
}

impl<W> View for VmLoop<W> {
    type V = LoopView<W>;

    closed spec fn view(&self) -> LoopView<W> {
        LoopView { stopped: self.stopped, waiters: self.waiters@ }
    }
}

impl<W> LoopView<W> {
    /// Nobody waits for a machine that has stopped.
    pub open spec fn wf(self) -> bool {
        self.stopped ==> self.waiters.len() == 0
    }
}

/// The news of success for everybody, in their order.
pub open spec fn good_news<W>(to: Seq<W>) -> Seq<Notice<W>> {
    Seq::new(to.len(), |i: int| Notice { to: to[i], result: Ok(()) })
}

impl<W> VmLoop<W> {
    /// The machine runs and nobody waits.
    pub fn new() -> (r: Self)
        ensures
            r@ == (LoopView { stopped: false, waiters: Seq::<W>::empty() }),
            r@.wf(),
    {
        VmLoop { stopped: false, waiters: Vec::new() }
    }

    /// Tells everybody who waits that the machine has stopped.
    fn dismiss(&mut self) -> (r: Vec<Notice<W>>)
        ensures
            r@ == good_news(old(self)@.waiters),
            final(self)@ == (LoopView { waiters: Seq::empty(), ..old(self)@ }),
    {
        let mut waiters: Vec<W> = Vec::new();
        std::mem::swap(&mut waiters, &mut self.waiters);
        let ghost all = waiters@;
        let mut r: Vec<Notice<W>> = Vec::new();
        assert(r@ =~= good_news(all.take(0)));
        assert(all.skip(0) =~= all);
        while waiters.len() > 0
            invariant
                r@.len() + waiters@.len() == all.len(),
                waiters@ == all.skip(r@.len() as int),
                r@ == good_news(all.take(r@.len() as int)),
            decreases waiters@.len(),
        {
            let ghost k = r@.len() as int;
            let w = waiters.remove(0);
            assert(w == all[k]);
            r.push(Notice { to: w, result: Ok(()) });
            assert(waiters@ =~= all.skip(k + 1));
            assert(r@ =~= good_news(all.take(k + 1)));
        }
        assert(all.take(all.len() as int) =~= all);
        r
    }

    /// Takes a command. A machine that has stopped is not asked again: whoever wants it stopped,
    /// or waits for that, is answered at once.
    pub fn handle(&mut self, cmd: VmCmd<W>) -> (r: VmStep<W>)
        requires
            old(self)@.wf(),
        ensures
            final(self)@.wf(),
            match cmd {
                VmCmd::Stop(w) => final(self)@ == old(self)@ && if old(self)@.stopped {
                    r matches VmStep::Answer(n) && n@ == good_news(seq![w])
                } else {
                    r == VmStep::RequestStop(Asker::Stop(w))
                },
                VmCmd::Wait(w) => if old(self)@.stopped {
                    &&& r matches VmStep::Answer(n) && n@ == good_news(seq![w])
                    &&& final(self)@ == old(self)@
                } else {
                    &&& r matches VmStep::Answer(n) && n@.len() == 0
                    &&& final(self)@ == (LoopView {
                        waiters: old(self)@.waiters.push(w),
                        ..old(self)@
                    })
                },
                VmCmd::Shutdown => final(self)@ == old(self)@ && if old(self)@.stopped {
                    r matches VmStep::End(n) && n@.len() == 0
                } else {
                    r == VmStep::<W>::RequestStop(Asker::Shutdown)
                },
            },
    {
        match cmd {
            VmCmd::Stop(w) => if self.stopped {
                let mut n: Vec<Notice<W>> = Vec::new();
                n.push(Notice { to: w, result: Ok(()) });
                assert(n@ =~= good_news(seq![w]));
                VmStep::Answer(n)
            } else {
                VmStep::RequestStop(Asker::Stop(w))
            },
            VmCmd::Wait(w) => {
                let mut n: Vec<Notice<W>> = Vec::new();
                if self.stopped {
                    n.push(Notice { to: w, result: Ok(()) });
                    assert(n@ =~= good_news(seq![w]));
                } else {
                    self.waiters.push(w);
                }
                VmStep::Answer(n)
            },
            VmCmd::Shutdown => if self.stopped {
                VmStep::End(Vec::new())
            } else {
                VmStep::RequestStop(Asker::Shutdown)
            },
        }
    }

    /// The machine was asked to stop. Where it did, everybody who waits is told, and then whoever
    /// wanted it; where it did not, only they are. A thread that is to end does so either way, and
    /// nobody is left waiting.
    pub fn stop_asked(&mut self, asker: Asker<W>, outcome: Result<(), Error>) -> (r: VmStep<W>)
        requires
            old(self)@.wf(),
            !old(self)@.stopped,
        ensures
            final(self)@.wf(),
            match asker {
                Asker::Stop(w) => if outcome is Ok {
                    &&& r matches VmStep::Answer(n) && n@ == good_news(old(self)@.waiters).push(
                        Notice { to: w, result: outcome },
                    )
                    &&& final(self)@ == (LoopView { stopped: true, waiters: Seq::<W>::empty() })
                } else {
                    &&& r matches VmStep::Answer(n) && n@ == seq![Notice { to: w, result: outcome }]
                    &&& final(self)@ == old(self)@
                },
                Asker::Shutdown => {
                    &&& r matches VmStep::End(n) && n@ == good_news(old(self)@.waiters)
                    &&& final(self)@ == (LoopView { waiters: Seq::<W>::empty(), ..old(self)@ })
                },
            },
    {
        match asker {
            Asker::Stop(w) => if outcome.is_ok() {
                self.stopped = true;
                let mut n = self.dismiss();
                n.push(Notice { to: w, result: outcome });
                VmStep::Answer(n)
            } else {
                let mut n: Vec<Notice<W>> = Vec::new();
                n.push(Notice { to: w, result: outcome });
                assert(n@ =~= seq![Notice { to: w, result: outcome }]);
                VmStep::Answer(n)
            },
            Asker::Shutdown => VmStep::End(self.dismiss()),
        }
    }
}

} // verus!
