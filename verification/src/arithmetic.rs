//! Arithmetic on the machine integers that reports an overflow as a
//! failure of the preprocessor instead of wrapping.
use vstd::prelude::*;

use crate::errors::{FilePosition, Failure, GeneralError};
use crate::eval::overflow_failure;

verus! {

/// Checked arithmetic: the exact result where it fits in the type, else
/// the overflow failure. The position is where the operation stands in the
/// source.
pub trait CheckedOperations: Sized {
    /// The value of the integer.
    spec fn value(&self) -> int;

    /// The least value of the type.
    spec fn min_value() -> int;

    /// The greatest value of the type.
    spec fn max_value() -> int;

    fn checked_add_unwrap(self, other: Self, current_position: &FilePosition) -> (r: Result<Self, Failure>)
        ensures
            if Self::min_value() <= self.value() + other.value() <= Self::max_value() {
                r matches Ok(v) && v.value() == self.value() + other.value()
            } else {
                r matches Err(f) && f@ == overflow_failure()
            },
    ;

    fn checked_add_assign_unwrap(&mut self, other: Self, current_position: &FilePosition) -> (r: Result<(), Failure>)
        ensures
            if Self::min_value() <= old(self).value() + other.value() <= Self::max_value() {
                r is Ok && final(self).value() == old(self).value() + other.value()
            } else {
                r matches Err(f) && f@ == overflow_failure() && final(self).value() == old(self).value()
            },
    ;

    fn checked_sub_unwrap(self, other: Self, current_position: &FilePosition) -> (r: Result<Self, Failure>)
        ensures
            if Self::min_value() <= self.value() - other.value() <= Self::max_value() {
                r matches Ok(v) && v.value() == self.value() - other.value()
            } else {
                r matches Err(f) && f@ == overflow_failure()
            },
    ;

    fn checked_sub_assign_unwrap(&mut self, other: Self, current_position: &FilePosition) -> (r: Result<(), Failure>)
        ensures
            if Self::min_value() <= old(self).value() - other.value() <= Self::max_value() {
                r is Ok && final(self).value() == old(self).value() - other.value()
            } else {
                r matches Err(f) && f@ == overflow_failure() && final(self).value() == old(self).value()
            },
    ;

    fn checked_mul_unwrap(self, other: Self, current_position: &FilePosition) -> (r: Result<Self, Failure>)
        ensures
            if Self::min_value() <= self.value() * other.value() <= Self::max_value() {
                r matches Ok(v) && v.value() == self.value() * other.value()
            } else {
                r matches Err(f) && f@ == overflow_failure()
            },
    ;

    fn checked_neg_unwrap(self, current_position: &FilePosition) -> (r: Result<Self, Failure>)
        ensures
            if Self::min_value() <= -self.value() <= Self::max_value() {
                r matches Ok(v) && v.value() == -self.value()
            } else {
                r matches Err(f) && f@ == overflow_failure()
            },
    ;
}

impl CheckedOperations for i8 {
    open spec fn value(&self) -> int {
        *self as int
    }

    open spec fn min_value() -> int {
        i8::MIN as int
    }

    open spec fn max_value() -> int {
        i8::MAX as int
    }

    fn checked_add_unwrap(self, other: Self, current_position: &FilePosition) -> (r: Result<Self, Failure>) {
        match self.checked_add(other) {
            Some(v) => Ok(v),
            None => Err(Failure::General(GeneralError::Overflow)),
        }
    }

    fn checked_add_assign_unwrap(&mut self, other: Self, current_position: &FilePosition) -> (r: Result<(), Failure>) {
        let v = (*self).checked_add_unwrap(other, current_position)?;
        *self = v;
        Ok(())
    }

    fn checked_sub_unwrap(self, other: Self, current_position: &FilePosition) -> (r: Result<Self, Failure>) {
        match self.checked_sub(other) {
            Some(v) => Ok(v),
            None => Err(Failure::General(GeneralError::Overflow)),
        }
    }

    fn checked_sub_assign_unwrap(&mut self, other: Self, current_position: &FilePosition) -> (r: Result<(), Failure>) {
        let v = (*self).checked_sub_unwrap(other, current_position)?;
        *self = v;
        Ok(())
    }

    fn checked_mul_unwrap(self, other: Self, current_position: &FilePosition) -> (r: Result<Self, Failure>) {
        match self.checked_mul(other) {
            Some(v) => Ok(v),
            None => Err(Failure::General(GeneralError::Overflow)),
        }
    }

    fn checked_neg_unwrap(self, current_position: &FilePosition) -> (r: Result<Self, Failure>) {
        if self == i8::MIN {
            Err(Failure::General(GeneralError::Overflow))
        } else {
            Ok(-self)
        }
    }
}

impl CheckedOperations for i16 {
    open spec fn value(&self) -> int {
        *self as int
    }

    open spec fn min_value() -> int {
        i16::MIN as int
    }

    open spec fn max_value() -> int {
        i16::MAX as int
    }

    fn checked_add_unwrap(self, other: Self, current_position: &FilePosition) -> (r: Result<Self, Failure>) {
        match self.checked_add(other) {
            Some(v) => Ok(v),
            None => Err(Failure::General(GeneralError::Overflow)),
        }
    }

    fn checked_add_assign_unwrap(&mut self, other: Self, current_position: &FilePosition) -> (r: Result<(), Failure>) {
        let v = (*self).checked_add_unwrap(other, current_position)?;
        *self = v;
        Ok(())
    }

    fn checked_sub_unwrap(self, other: Self, current_position: &FilePosition) -> (r: Result<Self, Failure>) {
        match self.checked_sub(other) {
            Some(v) => Ok(v),
            None => Err(Failure::General(GeneralError::Overflow)),
        }
    }

    fn checked_sub_assign_unwrap(&mut self, other: Self, current_position: &FilePosition) -> (r: Result<(), Failure>) {
        let v = (*self).checked_sub_unwrap(other, current_position)?;
        *self = v;
        Ok(())
    }

    fn checked_mul_unwrap(self, other: Self, current_position: &FilePosition) -> (r: Result<Self, Failure>) {
        match self.checked_mul(other) {
            Some(v) => Ok(v),
            None => Err(Failure::General(GeneralError::Overflow)),
        }
    }

    fn checked_neg_unwrap(self, current_position: &FilePosition) -> (r: Result<Self, Failure>) {
        if self == i16::MIN {
            Err(Failure::General(GeneralError::Overflow))
        } else {
            Ok(-self)
        }
    }
}

impl CheckedOperations for i32 {
    open spec fn value(&self) -> int {
        *self as int
    }

    open spec fn min_value() -> int {
        i32::MIN as int
    }

    open spec fn max_value() -> int {
        i32::MAX as int
    }

    fn checked_add_unwrap(self, other: Self, current_position: &FilePosition) -> (r: Result<Self, Failure>) {
        match self.checked_add(other) {
            Some(v) => Ok(v),
            None => Err(Failure::General(GeneralError::Overflow)),
        }
    }

    fn checked_add_assign_unwrap(&mut self, other: Self, current_position: &FilePosition) -> (r: Result<(), Failure>) {
        let v = (*self).checked_add_unwrap(other, current_position)?;
        *self = v;
        Ok(())
    }

    fn checked_sub_unwrap(self, other: Self, current_position: &FilePosition) -> (r: Result<Self, Failure>) {
        match self.checked_sub(other) {
            Some(v) => Ok(v),
            None => Err(Failure::General(GeneralError::Overflow)),
        }
    }

    fn checked_sub_assign_unwrap(&mut self, other: Self, current_position: &FilePosition) -> (r: Result<(), Failure>) {
        let v = (*self).checked_sub_unwrap(other, current_position)?;
        *self = v;
        Ok(())
    }

    fn checked_mul_unwrap(self, other: Self, current_position: &FilePosition) -> (r: Result<Self, Failure>) {
        match self.checked_mul(other) {
            Some(v) => Ok(v),
            None => Err(Failure::General(GeneralError::Overflow)),
        }
    }

    fn checked_neg_unwrap(self, current_position: &FilePosition) -> (r: Result<Self, Failure>) {
        if self == i32::MIN {
            Err(Failure::General(GeneralError::Overflow))
        } else {
            Ok(-self)
        }
    }
}

impl CheckedOperations for i64 {
    open spec fn value(&self) -> int {
        *self as int
    }

    open spec fn min_value() -> int {
        i64::MIN as int
    }

    open spec fn max_value() -> int {
        i64::MAX as int
    }

    fn checked_add_unwrap(self, other: Self, current_position: &FilePosition) -> (r: Result<Self, Failure>) {
        match self.checked_add(other) {
            Some(v) => Ok(v),
            None => Err(Failure::General(GeneralError::Overflow)),
        }
    }

    fn checked_add_assign_unwrap(&mut self, other: Self, current_position: &FilePosition) -> (r: Result<(), Failure>) {
        let v = (*self).checked_add_unwrap(other, current_position)?;
        *self = v;
        Ok(())
    }

    fn checked_sub_unwrap(self, other: Self, current_position: &FilePosition) -> (r: Result<Self, Failure>) {
        match self.checked_sub(other) {
            Some(v) => Ok(v),
            None => Err(Failure::General(GeneralError::Overflow)),
        }
    }

    fn checked_sub_assign_unwrap(&mut self, other: Self, current_position: &FilePosition) -> (r: Result<(), Failure>) {
        let v = (*self).checked_sub_unwrap(other, current_position)?;
        *self = v;
        Ok(())
    }

    fn checked_mul_unwrap(self, other: Self, current_position: &FilePosition) -> (r: Result<Self, Failure>) {
        match self.checked_mul(other) {
            Some(v) => Ok(v),
            None => Err(Failure::General(GeneralError::Overflow)),
        }
    }

    fn checked_neg_unwrap(self, current_position: &FilePosition) -> (r: Result<Self, Failure>) {
        if self == i64::MIN {
            Err(Failure::General(GeneralError::Overflow))
        } else {
            Ok(-self)
        }
    }
}

impl CheckedOperations for isize {
    open spec fn value(&self) -> int {
        *self as int
    }

    open spec fn min_value() -> int {
        isize::MIN as int
    }

    open spec fn max_value() -> int {
        isize::MAX as int
    }

    fn checked_add_unwrap(self, other: Self, current_position: &FilePosition) -> (r: Result<Self, Failure>) {
        match self.checked_add(other) {
            Some(v) => Ok(v),
            None => Err(Failure::General(GeneralError::Overflow)),
        }
    }

    fn checked_add_assign_unwrap(&mut self, other: Self, current_position: &FilePosition) -> (r: Result<(), Failure>) {
        let v = (*self).checked_add_unwrap(other, current_position)?;
        *self = v;
        Ok(())
    }

    fn checked_sub_unwrap(self, other: Self, current_position: &FilePosition) -> (r: Result<Self, Failure>) {
        match self.checked_sub(other) {
            Some(v) => Ok(v),
            None => Err(Failure::General(GeneralError::Overflow)),
        }
    }

    fn checked_sub_assign_unwrap(&mut self, other: Self, current_position: &FilePosition) -> (r: Result<(), Failure>) {
        let v = (*self).checked_sub_unwrap(other, current_position)?;
        *self = v;
        Ok(())
    }

    fn checked_mul_unwrap(self, other: Self, current_position: &FilePosition) -> (r: Result<Self, Failure>) {
        match self.checked_mul(other) {
            Some(v) => Ok(v),
            None => Err(Failure::General(GeneralError::Overflow)),
        }
    }

    fn checked_neg_unwrap(self, current_position: &FilePosition) -> (r: Result<Self, Failure>) {
        if self == isize::MIN {
            Err(Failure::General(GeneralError::Overflow))
        } else {
            Ok(-self)
        }
    }
}

impl CheckedOperations for u8 {
    open spec fn value(&self) -> int {
        *self as int
    }

    open spec fn min_value() -> int {
        u8::MIN as int
    }

    open spec fn max_value() -> int {
        u8::MAX as int
    }

    fn checked_add_unwrap(self, other: Self, current_position: &FilePosition) -> (r: Result<Self, Failure>) {
        match self.checked_add(other) {
            Some(v) => Ok(v),
            None => Err(Failure::General(GeneralError::Overflow)),
        }
    }

    fn checked_add_assign_unwrap(&mut self, other: Self, current_position: &FilePosition) -> (r: Result<(), Failure>) {
        let v = (*self).checked_add_unwrap(other, current_position)?;
        *self = v;
        Ok(())
    }

    fn checked_sub_unwrap(self, other: Self, current_position: &FilePosition) -> (r: Result<Self, Failure>) {
        match self.checked_sub(other) {
            Some(v) => Ok(v),
            None => Err(Failure::General(GeneralError::Overflow)),
        }
    }

    fn checked_sub_assign_unwrap(&mut self, other: Self, current_position: &FilePosition) -> (r: Result<(), Failure>) {
        let v = (*self).checked_sub_unwrap(other, current_position)?;
        *self = v;
        Ok(())
    }

    fn checked_mul_unwrap(self, other: Self, current_position: &FilePosition) -> (r: Result<Self, Failure>) {
        match self.checked_mul(other) {
            Some(v) => Ok(v),
            None => Err(Failure::General(GeneralError::Overflow)),
        }
    }

    fn checked_neg_unwrap(self, current_position: &FilePosition) -> (r: Result<Self, Failure>) {
        if self == 0 {
            Ok(0)
        } else {
            Err(Failure::General(GeneralError::Overflow))
        }
    }
}

impl CheckedOperations for u16 {
    open spec fn value(&self) -> int {
        *self as int
    }

    open spec fn min_value() -> int {
        u16::MIN as int
    }

    open spec fn max_value() -> int {
        u16::MAX as int
    }

    fn checked_add_unwrap(self, other: Self, current_position: &FilePosition) -> (r: Result<Self, Failure>) {
        match self.checked_add(other) {
            Some(v) => Ok(v),
            None => Err(Failure::General(GeneralError::Overflow)),
        }
    }

    fn checked_add_assign_unwrap(&mut self, other: Self, current_position: &FilePosition) -> (r: Result<(), Failure>) {
        let v = (*self).checked_add_unwrap(other, current_position)?;
        *self = v;
        Ok(())
    }

    fn checked_sub_unwrap(self, other: Self, current_position: &FilePosition) -> (r: Result<Self, Failure>) {
        match self.checked_sub(other) {
            Some(v) => Ok(v),
            None => Err(Failure::General(GeneralError::Overflow)),
        }
    }

    fn checked_sub_assign_unwrap(&mut self, other: Self, current_position: &FilePosition) -> (r: Result<(), Failure>) {
        let v = (*self).checked_sub_unwrap(other, current_position)?;
        *self = v;
        Ok(())
    }

    fn checked_mul_unwrap(self, other: Self, current_position: &FilePosition) -> (r: Result<Self, Failure>) {
        match self.checked_mul(other) {
            Some(v) => Ok(v),
            None => Err(Failure::General(GeneralError::Overflow)),
        }
    }

    fn checked_neg_unwrap(self, current_position: &FilePosition) -> (r: Result<Self, Failure>) {
        if self == 0 {
            Ok(0)
        } else {
            Err(Failure::General(GeneralError::Overflow))
        }
    }
}

impl CheckedOperations for u32 {
    open spec fn value(&self) -> int {
        *self as int
    }

    open spec fn min_value() -> int {
        u32::MIN as int
    }

    open spec fn max_value() -> int {
        u32::MAX as int
    }

    fn checked_add_unwrap(self, other: Self, current_position: &FilePosition) -> (r: Result<Self, Failure>) {
        match self.checked_add(other) {
            Some(v) => Ok(v),
            None => Err(Failure::General(GeneralError::Overflow)),
        }
    }

    fn checked_add_assign_unwrap(&mut self, other: Self, current_position: &FilePosition) -> (r: Result<(), Failure>) {
        let v = (*self).checked_add_unwrap(other, current_position)?;
        *self = v;
        Ok(())
    }

    fn checked_sub_unwrap(self, other: Self, current_position: &FilePosition) -> (r: Result<Self, Failure>) {
        match self.checked_sub(other) {
            Some(v) => Ok(v),
            None => Err(Failure::General(GeneralError::Overflow)),
        }
    }

    fn checked_sub_assign_unwrap(&mut self, other: Self, current_position: &FilePosition) -> (r: Result<(), Failure>) {
        let v = (*self).checked_sub_unwrap(other, current_position)?;
        *self = v;
        Ok(())
    }

    fn checked_mul_unwrap(self, other: Self, current_position: &FilePosition) -> (r: Result<Self, Failure>) {
        match self.checked_mul(other) {
            Some(v) => Ok(v),
            None => Err(Failure::General(GeneralError::Overflow)),
        }
    }

    fn checked_neg_unwrap(self, current_position: &FilePosition) -> (r: Result<Self, Failure>) {
        if self == 0 {
            Ok(0)
        } else {
            Err(Failure::General(GeneralError::Overflow))
        }
    }
}

impl CheckedOperations for u64 {
    open spec fn value(&self) -> int {
        *self as int
    }

    open spec fn min_value() -> int {
        u64::MIN as int
    }

    open spec fn max_value() -> int {
        u64::MAX as int
    }

    fn checked_add_unwrap(self, other: Self, current_position: &FilePosition) -> (r: Result<Self, Failure>) {
        match self.checked_add(other) {
            Some(v) => Ok(v),
            None => Err(Failure::General(GeneralError::Overflow)),
        }
    }

    fn checked_add_assign_unwrap(&mut self, other: Self, current_position: &FilePosition) -> (r: Result<(), Failure>) {
        let v = (*self).checked_add_unwrap(other, current_position)?;
        *self = v;
        Ok(())
    }

    fn checked_sub_unwrap(self, other: Self, current_position: &FilePosition) -> (r: Result<Self, Failure>) {
        match self.checked_sub(other) {
            Some(v) => Ok(v),
            None => Err(Failure::General(GeneralError::Overflow)),
        }
    }

    fn checked_sub_assign_unwrap(&mut self, other: Self, current_position: &FilePosition) -> (r: Result<(), Failure>) {
        let v = (*self).checked_sub_unwrap(other, current_position)?;
        *self = v;
        Ok(())
    }

    fn checked_mul_unwrap(self, other: Self, current_position: &FilePosition) -> (r: Result<Self, Failure>) {
        match self.checked_mul(other) {
            Some(v) => Ok(v),
            None => Err(Failure::General(GeneralError::Overflow)),
        }
    }

    fn checked_neg_unwrap(self, current_position: &FilePosition) -> (r: Result<Self, Failure>) {
        if self == 0 {
            Ok(0)
        } else {
            Err(Failure::General(GeneralError::Overflow))
        }
    }
}

impl CheckedOperations for usize {
    open spec fn value(&self) -> int {
        *self as int
    }

    open spec fn min_value() -> int {
        usize::MIN as int
    }

    open spec fn max_value() -> int {
        usize::MAX as int
    }

    fn checked_add_unwrap(self, other: Self, current_position: &FilePosition) -> (r: Result<Self, Failure>) {
        match self.checked_add(other) {
            Some(v) => Ok(v),
            None => Err(Failure::General(GeneralError::Overflow)),
        }
    }

    fn checked_add_assign_unwrap(&mut self, other: Self, current_position: &FilePosition) -> (r: Result<(), Failure>) {
        let v = (*self).checked_add_unwrap(other, current_position)?;
        *self = v;
        Ok(())
    }

    fn checked_sub_unwrap(self, other: Self, current_position: &FilePosition) -> (r: Result<Self, Failure>) {
        match self.checked_sub(other) {
            Some(v) => Ok(v),
            None => Err(Failure::General(GeneralError::Overflow)),
        }
    }

    fn checked_sub_assign_unwrap(&mut self, other: Self, current_position: &FilePosition) -> (r: Result<(), Failure>) {
        let v = (*self).checked_sub_unwrap(other, current_position)?;
        *self = v;
        Ok(())
    }

    fn checked_mul_unwrap(self, other: Self, current_position: &FilePosition) -> (r: Result<Self, Failure>) {
        match self.checked_mul(other) {
            Some(v) => Ok(v),
            None => Err(Failure::General(GeneralError::Overflow)),
        }
    }

    fn checked_neg_unwrap(self, current_position: &FilePosition) -> (r: Result<Self, Failure>) {
        if self == 0 {
            Ok(0)
        } else {
            Err(Failure::General(GeneralError::Overflow))
        }
    }
}

} // verus!
