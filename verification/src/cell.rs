//! The cells of the memory that driver and device share.
//!
//! A cell that only the driver writes is held by an exclusive reference, a
//! cell that the device writes by a shared one. The two kinds read differently:
//! a driver cell gives back what was written last, a device cell whatever the
//! device has put there by the time of the read. That the device keeps its hands
//! off the driver's cells is its side of the virtio protocol; nothing here can
//! enforce it.
use volatile::Volatile;
use vstd::prelude::*;

verus! {

/// The outside type `volatile::Volatile`, carried through as an opaque value.
#[verifier::external_type_specification]
#[verifier::external_body]
#[verifier::reject_recursive_types(T)]
pub struct ExVolatile<T: Copy>(Volatile<T>);

/// What a 16-bit cell of the driver holds.
pub uninterp spec fn held_u16(cell: Volatile<u16>) -> u16;

/// What a 32-bit cell of the driver holds.
pub uninterp spec fn held_u32(cell: Volatile<u32>) -> u32;

/// What a 64-bit cell of the driver holds.
pub uninterp spec fn held_u64(cell: Volatile<u64>) -> u64;

/// `value` came out of a read of the 16-bit device cell `cell`. The device
/// writes the cell at any time, so different values may come out of one cell.
pub uninterp spec fn seen_u16(cell: Volatile<u16>, value: u16) -> bool;

/// `value` came out of a read of the 32-bit device cell `cell`. The device
/// writes the cell at any time, so different values may come out of one cell.
pub uninterp spec fn seen_u32(cell: Volatile<u32>, value: u32) -> bool;

/// A 16-bit cell that only the driver writes.
pub struct DriverCell16<'a> {
    cell: &'a mut Volatile<u16>,
}

impl<'a> View for DriverCell16<'a> {
    type V = u16;

    open spec fn view(&self) -> u16 {
        held_u16(self.memory())
    }
}

impl<'a> DriverCell16<'a> {
    /// The memory behind the reference.
    pub closed spec fn memory(&self) -> Volatile<u16> {
        *self.cell
    }

    /// Takes the cell over, with what it holds.
    pub fn new(cell: &'a mut Volatile<u16>) -> (res: Self)
        ensures
            res@ == held_u16(*old(cell)),
    {
        DriverCell16 { cell }
    }

    /// `Volatile::read`: a volatile load of the wrapped value. The cell is
    /// borrowed exclusively, so the load gives back what the cell holds.
    #[verifier::external_body]
    pub(crate) fn read(&self) -> (res: u16)
        ensures
            res == held_u16(self.memory()),
    {
        self.cell.read()
    }

    /// `Volatile::write`: a volatile store; the cell holds `value` afterwards.
    #[verifier::external_body]
    pub(crate) fn write(&mut self, value: u16)
        ensures
            held_u16(final(self).memory()) == value,
    {
        self.cell.write(value);
    }
}

/// A 32-bit cell that only the driver writes.
pub struct DriverCell32<'a> {
    cell: &'a mut Volatile<u32>,
}

impl<'a> View for DriverCell32<'a> {
    type V = u32;

    open spec fn view(&self) -> u32 {
        held_u32(self.memory())
    }
}

impl<'a> DriverCell32<'a> {
    /// The memory behind the reference.
    pub closed spec fn memory(&self) -> Volatile<u32> {
        *self.cell
    }

    /// Takes the cell over, with what it holds.
    pub fn new(cell: &'a mut Volatile<u32>) -> (res: Self)
        ensures
            res@ == held_u32(*old(cell)),
    {
        DriverCell32 { cell }
    }

    /// `Volatile::read`: a volatile load of the wrapped value. The cell is
    /// borrowed exclusively, so the load gives back what the cell holds.
    #[verifier::external_body]
    pub(crate) fn read(&self) -> (res: u32)
        ensures
            res == held_u32(self.memory()),
    {
        self.cell.read()
    }

    /// `Volatile::write`: a volatile store; the cell holds `value` afterwards.
    #[verifier::external_body]
    pub(crate) fn write(&mut self, value: u32)
        ensures
            held_u32(final(self).memory()) == value,
    {
        self.cell.write(value);
    }
}

/// A 64-bit cell that only the driver writes.
pub struct DriverCell64<'a> {
    cell: &'a mut Volatile<u64>,
}

impl<'a> View for DriverCell64<'a> {
    type V = u64;

    open spec fn view(&self) -> u64 {
        held_u64(self.memory())
    }
}

impl<'a> DriverCell64<'a> {
    /// The memory behind the reference.
    pub closed spec fn memory(&self) -> Volatile<u64> {
        *self.cell
    }

    /// Takes the cell over, with what it holds.
    pub fn new(cell: &'a mut Volatile<u64>) -> (res: Self)
        ensures
            res@ == held_u64(*old(cell)),
    {
        DriverCell64 { cell }
    }

    /// `Volatile::read`: a volatile load of the wrapped value. The cell is
    /// borrowed exclusively, so the load gives back what the cell holds.
    #[verifier::external_body]
    pub(crate) fn read(&self) -> (res: u64)
        ensures
            res == held_u64(self.memory()),
    {
        self.cell.read()
    }

    /// `Volatile::write`: a volatile store; the cell holds `value` afterwards.
    #[verifier::external_body]
    pub(crate) fn write(&mut self, value: u64)
        ensures
            held_u64(final(self).memory()) == value,
    {
        self.cell.write(value);
    }
}

/// A 16-bit cell that the device writes.
pub struct DeviceCell16<'a> {
    cell: &'a Volatile<u16>,
}

impl<'a> View for DeviceCell16<'a> {
    type V = Volatile<u16>;

    closed spec fn view(&self) -> Volatile<u16> {
        *self.cell
    }
}

impl<'a> DeviceCell16<'a> {
    /// Watches the cell.
    pub fn new(cell: &'a Volatile<u16>) -> (res: Self)
        ensures
            res@ == *cell,
    {
        DeviceCell16 { cell }
    }

    /// `Volatile::read`: a volatile load. What comes out is up to the device;
    /// only that it came out of this cell is claimed.
    #[verifier::external_body]
    pub(crate) fn read(&self) -> (res: u16)
        ensures
            seen_u16(self@, res),
    {
        self.cell.read()
    }
}

/// A 32-bit cell that the device writes.
pub struct DeviceCell32<'a> {
    cell: &'a Volatile<u32>,
}

impl<'a> View for DeviceCell32<'a> {
    type V = Volatile<u32>;

    closed spec fn view(&self) -> Volatile<u32> {
        *self.cell
    }
}

impl<'a> DeviceCell32<'a> {
    /// Watches the cell.
    pub fn new(cell: &'a Volatile<u32>) -> (res: Self)
        ensures
            res@ == *cell,
    {
        DeviceCell32 { cell }
    }

    /// `Volatile::read`: a volatile load. What comes out is up to the device;
    /// only that it came out of this cell is claimed.
    #[verifier::external_body]
    pub(crate) fn read(&self) -> (res: u32)
        ensures
            seen_u32(self@, res),
    {
        self.cell.read()
    }
}

/// `core::sync::atomic::fence` with the order `SeqCst`: no memory access of the
/// driver is moved across the call. Nothing is claimed of any value.
#[verifier::external_body]
pub(crate) fn fence_seq_cst() {
    core::sync::atomic::fence(core::sync::atomic::Ordering::SeqCst);
}

} // verus!
