//! arithmetic on [`Value`]s and [`Depth`]s
use vstd::prelude::*;
use vstd::std_specs::ops::{AddSpecImpl, SubSpecImpl, MulSpecImpl, DivSpecImpl, NegSpecImpl};
use vstd::std_specs::convert::FromSpecImpl;
use crate::values::{Value, Depth};

verus! {

/// integer division rounding toward zero, as Rust's `/` does on signed integers
pub open spec fn div_toward_zero(a: int, b: int) -> int {
    if a >= 0 {
        a / b
    } else {
        -((-a) / b)
    }
}

impl core::ops::Neg for Value {
    type Output = Self;

    fn neg(self) -> (r: Self) {
        Value(-self.0)
    }
}

impl NegSpecImpl for Value {
    open spec fn obeys_neg_spec() -> bool {
        true
    }

    open spec fn neg_req(self) -> bool {
        self.0 != i16::MIN
    }

    open spec fn neg_spec(self) -> Value {
        Value((-self.0) as i16)
    }
}

impl core::ops::Add<Value> for Value {
    type Output = Self;

    fn add(self, rhs: Value) -> (r: Self) {
        Value(self.0 + rhs.0)
    }
}

impl AddSpecImpl<Value> for Value {
    open spec fn obeys_add_spec() -> bool {
        true
    }

    open spec fn add_req(self, rhs: Value) -> bool {
        i16::MIN <= self.0 + rhs.0 <= i16::MAX
    }

    open spec fn add_spec(self, rhs: Value) -> Value {
        Value((self.0 + rhs.0) as i16)
    }
}

impl core::ops::Add<i16> for Value {
    type Output = Self;

    fn add(self, rhs: i16) -> (r: Self) {
        Value(self.0 + rhs)
    }
}

impl AddSpecImpl<i16> for Value {
    open spec fn obeys_add_spec() -> bool {
        true
    }

    open spec fn add_req(self, rhs: i16) -> bool {
        i16::MIN <= self.0 + rhs <= i16::MAX
    }

    open spec fn add_spec(self, rhs: i16) -> Value {
        Value((self.0 + rhs) as i16)
    }
}

impl core::ops::Sub<Value> for Value {
    type Output = Self;

    fn sub(self, rhs: Value) -> (r: Self) {
        Value(self.0 - rhs.0)
    }
}

impl SubSpecImpl<Value> for Value {
    open spec fn obeys_sub_spec() -> bool {
        true
    }

    open spec fn sub_req(self, rhs: Value) -> bool {
        i16::MIN <= self.0 - rhs.0 <= i16::MAX
    }

    open spec fn sub_spec(self, rhs: Value) -> Value {
        Value((self.0 - rhs.0) as i16)
    }
}

impl core::ops::Sub<i16> for Value {
    type Output = Self;

    fn sub(self, rhs: i16) -> (r: Self) {
        Value(self.0 - rhs)
    }
}

impl SubSpecImpl<i16> for Value {
    open spec fn obeys_sub_spec() -> bool {
        true
    }

    open spec fn sub_req(self, rhs: i16) -> bool {
        i16::MIN <= self.0 - rhs <= i16::MAX
    }

    open spec fn sub_spec(self, rhs: i16) -> Value {
        Value((self.0 - rhs) as i16)
    }
}

impl core::ops::Mul<Value> for Value {
    type Output = Self;

    fn mul(self, rhs: Value) -> (r: Self) {
        Value(self.0 * rhs.0)
    }
}

impl MulSpecImpl<Value> for Value {
    open spec fn obeys_mul_spec() -> bool {
        true
    }

    open spec fn mul_req(self, rhs: Value) -> bool {
        i16::MIN <= self.0 * rhs.0 <= i16::MAX
    }

    open spec fn mul_spec(self, rhs: Value) -> Value {
        Value((self.0 * rhs.0) as i16)
    }
}

impl core::ops::Mul<i16> for Value {
    type Output = Self;

    fn mul(self, rhs: i16) -> (r: Self) {
        Value(self.0 * rhs)
    }
}

impl MulSpecImpl<i16> for Value {
    open spec fn obeys_mul_spec() -> bool {
        true
    }

    open spec fn mul_req(self, rhs: i16) -> bool {
        i16::MIN <= self.0 * rhs <= i16::MAX
    }

    open spec fn mul_spec(self, rhs: i16) -> Value {
        Value((self.0 * rhs) as i16)
    }
}

impl core::ops::Mul<Value> for i16 {
    type Output = Value;

    fn mul(self, rhs: Value) -> (r: Value) {
        Value(self * rhs.0)
    }
}

impl MulSpecImpl<Value> for i16 {
    open spec fn obeys_mul_spec() -> bool {
        true
    }

    open spec fn mul_req(self, rhs: Value) -> bool {
        i16::MIN <= self * rhs.0 <= i16::MAX
    }

    open spec fn mul_spec(self, rhs: Value) -> Value {
        Value((self * rhs.0) as i16)
    }
}

impl core::ops::Mul<u32> for Value {
    type Output = Value;

    fn mul(self, rhs: u32) -> (r: Value) {
        Value(self.0 * rhs as i16)
    }
}

impl MulSpecImpl<u32> for Value {
    open spec fn obeys_mul_spec() -> bool {
        true
    }

    open spec fn mul_req(self, rhs: u32) -> bool {
        i16::MIN <= self.0 * (rhs as i16) <= i16::MAX
    }

    open spec fn mul_spec(self, rhs: u32) -> Value {
        Value((self.0 * (rhs as i16)) as i16)
    }
}

impl core::ops::Div<i16> for Value {
    type Output = Self;

    fn div(self, rhs: i16) -> (r: Self) {
        Value(self.0 / rhs)
    }
}

impl DivSpecImpl<i16> for Value {
    open spec fn obeys_div_spec() -> bool {
        true
    }

    open spec fn div_req(self, rhs: i16) -> bool {
        rhs != 0 && !(self.0 == i16::MIN && rhs == -1)
    }

    open spec fn div_spec(self, rhs: i16) -> Value {
        Value(div_toward_zero(self.0 as int, rhs as int) as i16)
    }
}

impl core::ops::Div<Value> for Value {
    type Output = i16;

    fn div(self, rhs: Value) -> (r: i16) {
        self.0 / rhs.0
    }
}

impl DivSpecImpl<Value> for Value {
    open spec fn obeys_div_spec() -> bool {
        true
    }

    open spec fn div_req(self, rhs: Value) -> bool {
        rhs.0 != 0 && !(self.0 == i16::MIN && rhs.0 == -1)
    }

    open spec fn div_spec(self, rhs: Value) -> i16 {
        div_toward_zero(self.0 as int, rhs.0 as int) as i16
    }
}

impl core::ops::Sub<Value> for i32 {
    type Output = Value;

    fn sub(self, rhs: Value) -> (r: Value) {
        Value((self - rhs.0 as i32) as i16)
    }
}

impl SubSpecImpl<Value> for i32 {
    open spec fn obeys_sub_spec() -> bool {
        true
    }

    open spec fn sub_req(self, rhs: Value) -> bool {
        i32::MIN <= self - rhs.0 <= i32::MAX
    }

    open spec fn sub_spec(self, rhs: Value) -> Value {
        Value((self - rhs.0) as i16)
    }
}

impl core::ops::Sub<u16> for Depth {
    type Output = Depth;

    fn sub(self, rhs: u16) -> (r: Depth) {
        Depth(self.0 - rhs)
    }
}

impl SubSpecImpl<u16> for Depth {
    open spec fn obeys_sub_spec() -> bool {
        true
    }

    open spec fn sub_req(self, rhs: u16) -> bool {
        rhs <= self.0
    }

    open spec fn sub_spec(self, rhs: u16) -> Depth {
        Depth((self.0 - rhs) as u16)
    }
}

impl core::ops::AddAssign<Value> for Value {
    fn add_assign(&mut self, rhs: Value)
        ensures
            final(self).0 == vstd::wrapping::i16_specs::wrapping_add(old(self).0, rhs.0),
    {
        self.0 = self.0.wrapping_add(rhs.0);
    }
}

impl From<u16> for Value {
    fn from(v: u16) -> (r: Self) {
        Value(v as i16)
    }
}

impl FromSpecImpl<u16> for Value {
    open spec fn obeys_from_spec() -> bool {
        true
    }

    open spec fn from_spec(v: u16) -> Value {
        Value(v as i16)
    }
}

impl core::ops::AddAssign<i16> for Value {
    fn add_assign(&mut self, rhs: i16)
        ensures
            final(self).0 == vstd::wrapping::i16_specs::wrapping_add(old(self).0, rhs),
    {
        self.0 = self.0.wrapping_add(rhs);
    }
}

impl core::ops::AddAssign<u32> for Value {
    fn add_assign(&mut self, rhs: u32)
        ensures
            final(self).0 == vstd::wrapping::i16_specs::wrapping_add(old(self).0, rhs as i16),
    {
        self.0 = self.0.wrapping_add(rhs as i16);
    }
}

impl core::ops::SubAssign<Value> for Value {
    fn sub_assign(&mut self, rhs: Value)
        ensures
            final(self).0 == vstd::wrapping::i16_specs::wrapping_sub(old(self).0, rhs.0),
    {
        self.0 = self.0.wrapping_sub(rhs.0);
    }
}

impl core::ops::SubAssign<i16> for Value {
    fn sub_assign(&mut self, rhs: i16)
        ensures
            final(self).0 == vstd::wrapping::i16_specs::wrapping_sub(old(self).0, rhs),
    {
        self.0 = self.0.wrapping_sub(rhs);
    }
}

impl core::ops::SubAssign<u32> for Value {
    fn sub_assign(&mut self, rhs: u32)
        ensures
            final(self).0 == vstd::wrapping::i16_specs::wrapping_sub(old(self).0, rhs as i16),
    {
        self.0 = self.0.wrapping_sub(rhs as i16);
    }
}

impl core::ops::MulAssign<i16> for Value {
    fn mul_assign(&mut self, rhs: i16)
        ensures
            final(self).0 == vstd::wrapping::i16_specs::wrapping_mul(old(self).0, rhs),
    {
        self.0 = self.0.wrapping_mul(rhs);
    }
}

impl core::ops::AddAssign for Depth {
    fn add_assign(&mut self, rhs: Depth)
        ensures
            final(self).0 == vstd::wrapping::u16_specs::wrapping_add(old(self).0, rhs.0),
    {
        self.0 = self.0.wrapping_add(rhs.0);
    }
}

impl From<u32> for Value {
    fn from(v: u32) -> (r: Self) {
        Value(v as i16)
    }
}

impl FromSpecImpl<u32> for Value {
    open spec fn obeys_from_spec() -> bool {
        true
    }

    open spec fn from_spec(v: u32) -> Value {
        Value(v as i16)
    }
}

impl From<i32> for Value {
    fn from(v: i32) -> (r: Self) {
        Value(v as i16)
    }
}

impl FromSpecImpl<i32> for Value {
    open spec fn obeys_from_spec() -> bool {
        true
    }

    open spec fn from_spec(v: i32) -> Value {
        Value(v as i16)
    }
}

impl From<u8> for Depth {
    fn from(d: u8) -> (r: Self) {
        Depth(d as u16)
    }
}

impl FromSpecImpl<u8> for Depth {
    open spec fn obeys_from_spec() -> bool {
        true
    }

    open spec fn from_spec(d: u8) -> Depth {
        Depth(d as u16)
    }
}

} // verus!
