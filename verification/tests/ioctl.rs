use tuxedo_driver::ioctl::{ArgKind, IoctlReq, Request, IOCTL_MAGIC, MAGIC_READ_UW, MAGIC_WRITE_UW};

const ALL: [Request; 17] = [
    Request::ModVersion,
    Request::HwcheckUw,
    Request::UwHwIfStr,
    Request::UwModelId,
    Request::UwFanspeed,
    Request::UwFanspeed2,
    Request::UwFanTemp,
    Request::UwFanTemp2,
    Request::UwMode,
    Request::UwModeEnable,
    Request::UwFansOffAvailable,
    Request::UwFansMinSpeed,
    Request::UwProfsAvailable,
    Request::SetUwFanspeed,
    Request::SetUwFanspeed2,
    Request::SetUwFanauto,
    Request::SetUwPerfProf,
];

fn pointer_bits() -> u64 {
    (std::mem::size_of::<&i32>() as u64) << 16
}

#[test]
fn type_bytes() {
    assert_eq!(IOCTL_MAGIC, 0xec);
    assert_eq!(MAGIC_READ_UW, 0xef);
    assert_eq!(MAGIC_WRITE_UW, 0xf0);
}

#[test]
fn constructors_set_the_direction() {
    let none = IoctlReq::none(0xf0, 0x14);
    assert_eq!((none.dir, none.ty, none.nr, none.arg), (0, 0xf0, 0x14, ArgKind::NoArg));
    let read = IoctlReq::read(0xef, 0x10, ArgKind::Ptr);
    assert_eq!((read.dir, read.ty, read.nr, read.arg), (2, 0xef, 0x10, ArgKind::Ptr));
    let write = IoctlReq::write(0xf0, 0x18, ArgKind::NoArg);
    assert_eq!((write.dir, write.ty, write.nr, write.arg), (1, 0xf0, 0x18, ArgKind::NoArg));
}

#[test]
fn codes_of_requests() {
    assert_eq!(Request::ModVersion.code(), 0x8000_ec00 | pointer_bits());
    assert_eq!(Request::HwcheckUw.code(), 0x8000_ec06 | pointer_bits());
    assert_eq!(Request::UwHwIfStr.code(), 0x8000_ef00 | pointer_bits());
    assert_eq!(Request::UwModelId.code(), 0x8000_ef01 | pointer_bits());
    assert_eq!(Request::UwFanspeed.code(), 0x8000_ef10 | pointer_bits());
    assert_eq!(Request::UwFanspeed2.code(), 0x8000_ef11 | pointer_bits());
    assert_eq!(Request::UwFanTemp.code(), 0x8000_ef12 | pointer_bits());
    assert_eq!(Request::UwFanTemp2.code(), 0x8000_ef13 | pointer_bits());
    assert_eq!(Request::UwMode.code(), 0x8000_ef14 | pointer_bits());
    assert_eq!(Request::UwModeEnable.code(), 0x8000_ef15 | pointer_bits());
    assert_eq!(Request::UwFansOffAvailable.code(), 0x8000_ef16 | pointer_bits());
    assert_eq!(Request::UwFansMinSpeed.code(), 0x8000_ef17 | pointer_bits());
    assert_eq!(Request::UwProfsAvailable.code(), 0x8000_ef21 | pointer_bits());
    assert_eq!(Request::SetUwFanspeed.code(), 0x4000_f010 | pointer_bits());
    assert_eq!(Request::SetUwFanspeed2.code(), 0x4000_f011 | pointer_bits());
    assert_eq!(Request::SetUwFanauto.code(), 0x0000_f014);
    assert_eq!(Request::SetUwPerfProf.code(), 0x4000_f018 | pointer_bits());
}

#[test]
fn codes_are_distinct_and_fit_a_kernel_code() {
    for (i, a) in ALL.iter().enumerate() {
        assert!(a.code() <= u64::from(u32::MAX));
        assert_eq!(a.code(), a.req().code());
        for b in &ALL[..i] {
            assert_ne!(a.code(), b.code());
        }
    }
}

#[test]
fn fields_do_not_run_into_each_other() {
    let req = IoctlReq { dir: 0xff, ty: 0xff, nr: 0xff, arg: ArgKind::NoArg };
    assert_eq!(req.code(), (0xff << 30) | 0xffff);
}
