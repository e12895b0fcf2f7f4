//! The requests that the `/dev/tuxedo_io` driver understands and their `ioctl` codes.

use vstd::prelude::*;

verus! {

/// The character device through which the driver is reached.
pub const TUXEDO_IO: &'static str = "/dev/tuxedo_io";

/// The type byte of the requests that concern the driver as a whole.
pub const IOCTL_MAGIC: u8 = 0xec;

/// The type byte of the requests that read from the Uniwill interface.
pub const MAGIC_READ_UW: u8 = IOCTL_MAGIC + 3;

/// The type byte of the requests that write to the Uniwill interface.
pub const MAGIC_WRITE_UW: u8 = IOCTL_MAGIC + 4;

/// What a request passes to the driver besides its code.
#[derive(Copy, Clone, Debug, PartialEq, Eq, Structural)]
pub enum ArgKind {
    /// Nothing.
    NoArg,
    /// A pointer.
    Ptr,
}

/// The four parts that make up an `ioctl` request code.
#[derive(Copy, Clone, Debug, PartialEq, Eq, Structural)]
pub struct IoctlReq {
    /// 0 for none, 1 for a write, 2 for a read.
    pub dir: u8,
    pub ty: u8,
    pub nr: u8,
    pub arg: ArgKind,
}

/// The number of bytes that an argument of this kind takes up.
pub open spec fn argument_size(arg: ArgKind) -> nat {
    match arg {
        ArgKind::NoArg => 0,
        ArgKind::Ptr => (usize::BITS / 8) as nat,
    }
}

/// The request code: the direction from bit 30 up, the argument's size from bit 16 up, the
/// type byte from bit 8 up, and the number in the lowest byte.
pub open spec fn request_code(req: IoctlReq) -> nat {
    (req.dir * 0x4000_0000 + argument_size(req.arg) * 0x1_0000 + req.ty * 0x100 + req.nr) as nat
}

impl IoctlReq {
    /// A request that carries no argument.
    pub fn none(ty: u8, nr: u8) -> (req: Self)
        ensures
            req == (IoctlReq { dir: 0, ty, nr, arg: ArgKind::NoArg }),
    {
        IoctlReq { dir: 0, ty, nr, arg: ArgKind::NoArg }
    }

    /// A request by which the driver hands a value out.
    pub fn read(ty: u8, nr: u8, arg: ArgKind) -> (req: Self)
        ensures
            req == (IoctlReq { dir: 2, ty, nr, arg }),
    {
        IoctlReq { dir: 2, ty, nr, arg }
    }

    /// A request by which the driver takes a value in.
    pub fn write(ty: u8, nr: u8, arg: ArgKind) -> (req: Self)
        ensures
            req == (IoctlReq { dir: 1, ty, nr, arg }),
    {
        IoctlReq { dir: 1, ty, nr, arg }
    }

    /// The code that identifies the request to the kernel.
    pub fn code(self) -> (code: u64)
        ensures
            code == request_code(self),
            self.dir <= 3 ==> code <= u32::MAX,
    {
        proof {
            broadcast use vstd::layout::layout_of_primitives;
        }
        let size: u64 = match self.arg {
            ArgKind::NoArg => 0,
            ArgKind::Ptr => core::mem::size_of::<usize>() as u64,
        };
        let dir: u64 = self.dir as u64;
        let ty: u64 = self.ty as u64;
        let nr: u64 = self.nr as u64;
        assert(size <= 8);
        assert(((dir << 30) | (ty << 8) | (nr << 0) | (size << 16)) == dir * 0x4000_0000 + size
            * 0x1_0000 + ty * 0x100 + nr) by (bit_vector)
            requires
                dir <= 0xff,
                ty <= 0xff,
                nr <= 0xff,
                size <= 8,
        ;
        (dir << 30) | (ty << 8) | (nr << 0) | (size << 16)
    }
}

/// Every request that is made of the driver.
#[derive(Copy, Clone, Debug, PartialEq, Eq, Structural)]
pub enum Request {
    /// The version of the kernel module, a string.
    ModVersion,
    /// 1 where the Uniwill interface is present.
    HwcheckUw,
    /// The name of the hardware interface, a string.
    UwHwIfStr,
    /// The model number.
    UwModelId,
    /// The speed of the first fan.
    UwFanspeed,
    /// The speed of the second fan.
    UwFanspeed2,
    /// The temperature at the first fan.
    UwFanTemp,
    /// The temperature at the second fan.
    UwFanTemp2,
    /// The mode register, which holds the performance profile.
    UwMode,
    /// The register that tells manual from automatic fan control.
    UwModeEnable,
    /// 1 where the fans can be switched off.
    UwFansOffAvailable,
    /// The lowest speed, in percent, at which the fans turn.
    UwFansMinSpeed,
    /// The number of performance profiles.
    UwProfsAvailable,
    /// Sets the speed of the first fan.
    SetUwFanspeed,
    /// Sets the speed of the second fan.
    SetUwFanspeed2,
    /// Hands the fans back to the firmware.
    SetUwFanauto,
    /// Sets the performance profile.
    SetUwPerfProf,
}

/// The direction, type byte and number of each request, and whether it passes a pointer.
pub open spec fn request_parts(request: Request) -> IoctlReq {
    let (dir, ty, nr, arg) = match request {
        Request::ModVersion => (2u8, IOCTL_MAGIC, 0x00u8, ArgKind::Ptr),
        Request::HwcheckUw => (2u8, IOCTL_MAGIC, 0x06u8, ArgKind::Ptr),
        Request::UwHwIfStr => (2u8, MAGIC_READ_UW, 0x00u8, ArgKind::Ptr),
        Request::UwModelId => (2u8, MAGIC_READ_UW, 0x01u8, ArgKind::Ptr),
        Request::UwFanspeed => (2u8, MAGIC_READ_UW, 0x10u8, ArgKind::Ptr),
        Request::UwFanspeed2 => (2u8, MAGIC_READ_UW, 0x11u8, ArgKind::Ptr),
        Request::UwFanTemp => (2u8, MAGIC_READ_UW, 0x12u8, ArgKind::Ptr),
        Request::UwFanTemp2 => (2u8, MAGIC_READ_UW, 0x13u8, ArgKind::Ptr),
        Request::UwMode => (2u8, MAGIC_READ_UW, 0x14u8, ArgKind::Ptr),
        Request::UwModeEnable => (2u8, MAGIC_READ_UW, 0x15u8, ArgKind::Ptr),
        Request::UwFansOffAvailable => (2u8, MAGIC_READ_UW, 0x16u8, ArgKind::Ptr),
        Request::UwFansMinSpeed => (2u8, MAGIC_READ_UW, 0x17u8, ArgKind::Ptr),
        Request::UwProfsAvailable => (2u8, MAGIC_READ_UW, 0x21u8, ArgKind::Ptr),
        Request::SetUwFanspeed => (1u8, MAGIC_WRITE_UW, 0x10u8, ArgKind::Ptr),
        Request::SetUwFanspeed2 => (1u8, MAGIC_WRITE_UW, 0x11u8, ArgKind::Ptr),
        Request::SetUwFanauto => (0u8, MAGIC_WRITE_UW, 0x14u8, ArgKind::NoArg),
        Request::SetUwPerfProf => (1u8, MAGIC_WRITE_UW, 0x18u8, ArgKind::Ptr),
    };
    IoctlReq { dir, ty, nr, arg }
}

impl Request {
    /// The parts of the request's code.
    pub fn req(self) -> (req: IoctlReq)
        ensures
            req == request_parts(self),
    {
        match self {
            Request::ModVersion => IoctlReq::read(IOCTL_MAGIC, 0x00, ArgKind::Ptr),
            Request::HwcheckUw => IoctlReq::read(IOCTL_MAGIC, 0x06, ArgKind::Ptr),
            Request::UwHwIfStr => IoctlReq::read(MAGIC_READ_UW, 0x00, ArgKind::Ptr),
            Request::UwModelId => IoctlReq::read(MAGIC_READ_UW, 0x01, ArgKind::Ptr),
            Request::UwFanspeed => IoctlReq::read(MAGIC_READ_UW, 0x10, ArgKind::Ptr),
            Request::UwFanspeed2 => IoctlReq::read(MAGIC_READ_UW, 0x11, ArgKind::Ptr),
            Request::UwFanTemp => IoctlReq::read(MAGIC_READ_UW, 0x12, ArgKind::Ptr),
            Request::UwFanTemp2 => IoctlReq::read(MAGIC_READ_UW, 0x13, ArgKind::Ptr),
            Request::UwMode => IoctlReq::read(MAGIC_READ_UW, 0x14, ArgKind::Ptr),
            Request::UwModeEnable => IoctlReq::read(MAGIC_READ_UW, 0x15, ArgKind::Ptr),
            Request::UwFansOffAvailable => IoctlReq::read(MAGIC_READ_UW, 0x16, ArgKind::Ptr),
            Request::UwFansMinSpeed => IoctlReq::read(MAGIC_READ_UW, 0x17, ArgKind::Ptr),
            Request::UwProfsAvailable => IoctlReq::read(MAGIC_READ_UW, 0x21, ArgKind::Ptr),
            Request::SetUwFanspeed => IoctlReq::write(MAGIC_WRITE_UW, 0x10, ArgKind::Ptr),
            Request::SetUwFanspeed2 => IoctlReq::write(MAGIC_WRITE_UW, 0x11, ArgKind::Ptr),
            Request::SetUwFanauto => IoctlReq::none(MAGIC_WRITE_UW, 0x14),
            Request::SetUwPerfProf => IoctlReq::write(MAGIC_WRITE_UW, 0x18, ArgKind::Ptr),
        }
    }

    /// The code that identifies the request to the kernel.
    pub fn code(self) -> (code: u64)
        ensures
            code == request_code(request_parts(self)),
            code <= u32::MAX,
    {
        self.req().code()
    }
}

/// A code stands for one set of parts: none of its fields runs into another.
pub proof fn law_code_injective(a: IoctlReq, b: IoctlReq)
    requires
        request_code(a) == request_code(b),
    ensures
        a == b,
{
    assert(usize::BITS == 32 || usize::BITS == 64);
}

/// No two requests share a code.
pub proof fn law_requests_distinct(a: Request, b: Request)
    requires
        request_code(request_parts(a)) == request_code(request_parts(b)),
    ensures
        a == b,
{
    law_code_injective(request_parts(a), request_parts(b));
}

/// The number, the type byte, the argument's size and the direction can be read off a code
/// again: a pointer takes up four or eight bytes, the absence of an argument none.
pub proof fn law_code_fields(req: IoctlReq)
    ensures
        ({
            let code = request_code(req) as int;
            let size = code / 0x1_0000 % 0x4000;
            &&& code % 0x100 == req.nr
            &&& code / 0x100 % 0x100 == req.ty
            &&& req.arg is NoArg ==> size == 0
            &&& req.arg is Ptr ==> size * 8 == usize::BITS
            &&& code / 0x4000_0000 == req.dir
        }),
{
    assert(usize::BITS == 32 || usize::BITS == 64);
}

/// What reads is marked as a read, what writes as a write, and only the hand-back of the fans
/// passes nothing.
pub proof fn law_request_directions(request: Request)
    ensures
        ({
            let parts = request_parts(request);
            let writes = request is SetUwFanspeed || request is SetUwFanspeed2
                || request is SetUwPerfProf;
            &&& parts.dir == 0 <==> request is SetUwFanauto
            &&& parts.dir == 1 <==> writes
            &&& parts.dir <= 2
            &&& parts.arg is NoArg <==> request is SetUwFanauto
            &&& parts.ty == 0xf0 <==> writes || request is SetUwFanauto
            &&& parts.ty == 0xec <==> request is ModVersion || request is HwcheckUw
            &&& parts.ty == 0xec || parts.ty == 0xef || parts.ty == 0xf0
        }),
{
}

} // verus!
