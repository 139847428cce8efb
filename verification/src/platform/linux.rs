//! Linux-specific computations: OOM score conversion and I/O priority encoding.

use vstd::prelude::*;
use crate::model::IoClass;

pub use crate::actions::convert_oom_adj;

verus! {

/// The number of the I/O scheduling class in the kernel's encoding.
pub open spec fn io_class_num(class: IoClass) -> u16 {
    match class {
        IoClass::Realtime => 1,
        IoClass::BestEffort => 2,
        IoClass::Idle => 3,
    }
}

/// The number of the I/O scheduling class in the kernel's encoding:
/// realtime 1, best effort 2, idle 3.
pub fn io_class_number(class: IoClass) -> (n: u16)
    ensures
        n == io_class_num(class),
{
    match class {
        IoClass::Realtime => 1,
        IoClass::BestEffort => 2,
        IoClass::Idle => 3,
    }
}

/// The `ioprio` argument of `ioprio_set`: the class shifted left by 13 bits,
/// combined with the level in the low bits (`IOPRIO_PRIO_VALUE`), computed in
/// 16 bits.
pub fn ioprio_value(class: u16, data: u16) -> (v: i32)
    ensures
        v == ((class << 13u16) | data) as int,
        class < 8 && data < 8192 ==> v == class * 8192 + data,
{
    let packed: u16 = (class << 13u16) | data;
    proof {
        if class < 8 && data < 8192 {
            assert((class << 13u16) | data == class * 8192 + data) by (bit_vector)
                requires
                    class < 8 && data < 8192,
            ;
        }
    }
    packed as i32
}

/// Encoding and decoding an I/O priority give back its class and level.
pub proof fn law_ioprio_decodes(class: u16, data: u16)
    requires
        class < 8,
        data < 8192,
    ensures
        ((class << 13u16) | data) >> 13u16 == class,
        ((class << 13u16) | data) & 0x1fffu16 == data,
{
    assert(((class << 13u16) | data) >> 13u16 == class && ((class << 13u16) | data) & 0x1fffu16
        == data) by (bit_vector)
        requires
            class < 8 && data < 8192,
    ;
}

/// The `ioprio` argument for a class and an optional level; a missing level
/// is 0, the highest within the class.
pub fn io_priority_value(class: IoClass, level: Option<u8>) -> (v: i32)
    ensures
        v == io_class_num(class) * 8192 + match level {
            Some(l) => l as int,
            None => 0,
        },
{
    let data: u16 = match level {
        Some(l) => l as u16,
        None => 0,
    };
    ioprio_value(io_class_number(class), data)
}

} // verus!
