//! Conversions between tags, the values they carry, and plain values.
use crate::tag;
use crate::NBTTag;
use vstd::prelude::*;
use vstd::std_specs::convert::FromSpecImpl;
use vstd::std_specs::convert::TryFromSpecImpl;

verus! {

impl From<tag::Byte> for NBTTag {
    /// Wraps the value.
    fn from(value: tag::Byte) -> (tag: Self) {
        NBTTag::Byte(value)
    }
}

impl FromSpecImpl<tag::Byte> for NBTTag {
    open spec fn obeys_from_spec() -> bool {
        true
    }

    open spec fn from_spec(value: tag::Byte) -> Self {
        NBTTag::Byte(value)
    }
}

impl From<tag::Short> for NBTTag {
    /// Wraps the value.
    fn from(value: tag::Short) -> (tag: Self) {
        NBTTag::Short(value)
    }
}

impl FromSpecImpl<tag::Short> for NBTTag {
    open spec fn obeys_from_spec() -> bool {
        true
    }

    open spec fn from_spec(value: tag::Short) -> Self {
        NBTTag::Short(value)
    }
}

impl From<tag::Int> for NBTTag {
    /// Wraps the value.
    fn from(value: tag::Int) -> (tag: Self) {
        NBTTag::Int(value)
    }
}

impl FromSpecImpl<tag::Int> for NBTTag {
    open spec fn obeys_from_spec() -> bool {
        true
    }

    open spec fn from_spec(value: tag::Int) -> Self {
        NBTTag::Int(value)
    }
}

impl From<tag::Long> for NBTTag {
    /// Wraps the value.
    fn from(value: tag::Long) -> (tag: Self) {
        NBTTag::Long(value)
    }
}

impl FromSpecImpl<tag::Long> for NBTTag {
    open spec fn obeys_from_spec() -> bool {
        true
    }

    open spec fn from_spec(value: tag::Long) -> Self {
        NBTTag::Long(value)
    }
}

impl From<tag::Float> for NBTTag {
    /// Wraps the value.
    fn from(value: tag::Float) -> (tag: Self) {
        NBTTag::Float(value)
    }
}

impl FromSpecImpl<tag::Float> for NBTTag {
    open spec fn obeys_from_spec() -> bool {
        true
    }

    open spec fn from_spec(value: tag::Float) -> Self {
        NBTTag::Float(value)
    }
}

impl From<tag::Double> for NBTTag {
    /// Wraps the value.
    fn from(value: tag::Double) -> (tag: Self) {
        NBTTag::Double(value)
    }
}

impl FromSpecImpl<tag::Double> for NBTTag {
    open spec fn obeys_from_spec() -> bool {
        true
    }

    open spec fn from_spec(value: tag::Double) -> Self {
        NBTTag::Double(value)
    }
}

impl From<tag::String> for NBTTag {
    /// Wraps the value.
    fn from(value: tag::String) -> (tag: Self) {
        NBTTag::String(value)
    }
}

impl FromSpecImpl<tag::String> for NBTTag {
    open spec fn obeys_from_spec() -> bool {
        true
    }

    open spec fn from_spec(value: tag::String) -> Self {
        NBTTag::String(value)
    }
}

impl From<tag::Compound> for NBTTag {
    /// Wraps the value.
    fn from(value: tag::Compound) -> (tag: Self) {
        NBTTag::Compound(value)
    }
}

impl FromSpecImpl<tag::Compound> for NBTTag {
    open spec fn obeys_from_spec() -> bool {
        true
    }

    open spec fn from_spec(value: tag::Compound) -> Self {
        NBTTag::Compound(value)
    }
}

impl From<tag::List> for NBTTag {
    /// Wraps the value.
    fn from(value: tag::List) -> (tag: Self) {
        NBTTag::List(value)
    }
}

impl FromSpecImpl<tag::List> for NBTTag {
    open spec fn obeys_from_spec() -> bool {
        true
    }

    open spec fn from_spec(value: tag::List) -> Self {
        NBTTag::List(value)
    }
}

impl From<tag::ByteArray> for NBTTag {
    /// Wraps the value.
    fn from(value: tag::ByteArray) -> (tag: Self) {
        NBTTag::ByteArray(value)
    }
}

impl FromSpecImpl<tag::ByteArray> for NBTTag {
    open spec fn obeys_from_spec() -> bool {
        true
    }

    open spec fn from_spec(value: tag::ByteArray) -> Self {
        NBTTag::ByteArray(value)
    }
}

impl From<tag::IntArray> for NBTTag {
    /// Wraps the value.
    fn from(value: tag::IntArray) -> (tag: Self) {
        NBTTag::IntArray(value)
    }
}

impl FromSpecImpl<tag::IntArray> for NBTTag {
    open spec fn obeys_from_spec() -> bool {
        true
    }

    open spec fn from_spec(value: tag::IntArray) -> Self {
        NBTTag::IntArray(value)
    }
}

impl From<tag::LongArray> for NBTTag {
    /// Wraps the value.
    fn from(value: tag::LongArray) -> (tag: Self) {
        NBTTag::LongArray(value)
    }
}

impl FromSpecImpl<tag::LongArray> for NBTTag {
    open spec fn obeys_from_spec() -> bool {
        true
    }

    open spec fn from_spec(value: tag::LongArray) -> Self {
        NBTTag::LongArray(value)
    }
}

impl From<i8> for tag::Byte {
    /// Wraps the value.
    fn from(value: i8) -> (tag: Self) {
        tag::Byte(value)
    }
}

impl FromSpecImpl<i8> for tag::Byte {
    open spec fn obeys_from_spec() -> bool {
        true
    }

    open spec fn from_spec(value: i8) -> Self {
        tag::Byte(value)
    }
}

impl From<i16> for tag::Short {
    /// Wraps the value.
    fn from(value: i16) -> (tag: Self) {
        tag::Short(value)
    }
}

impl FromSpecImpl<i16> for tag::Short {
    open spec fn obeys_from_spec() -> bool {
        true
    }

    open spec fn from_spec(value: i16) -> Self {
        tag::Short(value)
    }
}

impl From<i32> for tag::Int {
    /// Wraps the value.
    fn from(value: i32) -> (tag: Self) {
        tag::Int(value)
    }
}

impl FromSpecImpl<i32> for tag::Int {
    open spec fn obeys_from_spec() -> bool {
        true
    }

    open spec fn from_spec(value: i32) -> Self {
        tag::Int(value)
    }
}

impl From<i64> for tag::Long {
    /// Wraps the value.
    fn from(value: i64) -> (tag: Self) {
        tag::Long(value)
    }
}

impl FromSpecImpl<i64> for tag::Long {
    open spec fn obeys_from_spec() -> bool {
        true
    }

    open spec fn from_spec(value: i64) -> Self {
        tag::Long(value)
    }
}

impl From<u32> for tag::Float {
    /// Wraps the value.
    fn from(value: u32) -> (tag: Self) {
        tag::Float(value)
    }
}

impl FromSpecImpl<u32> for tag::Float {
    open spec fn obeys_from_spec() -> bool {
        true
    }

    open spec fn from_spec(value: u32) -> Self {
        tag::Float(value)
    }
}

impl From<u64> for tag::Double {
    /// Wraps the value.
    fn from(value: u64) -> (tag: Self) {
        tag::Double(value)
    }
}

impl FromSpecImpl<u64> for tag::Double {
    open spec fn obeys_from_spec() -> bool {
        true
    }

    open spec fn from_spec(value: u64) -> Self {
        tag::Double(value)
    }
}

impl From<Vec<i8>> for tag::ByteArray {
    /// Wraps the value.
    fn from(value: Vec<i8>) -> (tag: Self) {
        tag::ByteArray(value)
    }
}

impl FromSpecImpl<Vec<i8>> for tag::ByteArray {
    open spec fn obeys_from_spec() -> bool {
        true
    }

    open spec fn from_spec(value: Vec<i8>) -> Self {
        tag::ByteArray(value)
    }
}

impl From<Vec<i32>> for tag::IntArray {
    /// Wraps the value.
    fn from(value: Vec<i32>) -> (tag: Self) {
        tag::IntArray(value)
    }
}

impl FromSpecImpl<Vec<i32>> for tag::IntArray {
    open spec fn obeys_from_spec() -> bool {
        true
    }

    open spec fn from_spec(value: Vec<i32>) -> Self {
        tag::IntArray(value)
    }
}

impl From<Vec<i64>> for tag::LongArray {
    /// Wraps the value.
    fn from(value: Vec<i64>) -> (tag: Self) {
        tag::LongArray(value)
    }
}

impl FromSpecImpl<Vec<i64>> for tag::LongArray {
    open spec fn obeys_from_spec() -> bool {
        true
    }

    open spec fn from_spec(value: Vec<i64>) -> Self {
        tag::LongArray(value)
    }
}

impl From<Vec<NBTTag>> for tag::List {
    /// Wraps the value.
    fn from(value: Vec<NBTTag>) -> (tag: Self) {
        tag::List(value)
    }
}

impl FromSpecImpl<Vec<NBTTag>> for tag::List {
    open spec fn obeys_from_spec() -> bool {
        true
    }

    open spec fn from_spec(value: Vec<NBTTag>) -> Self {
        tag::List(value)
    }
}

impl From<std::string::String> for tag::String {
    /// Wraps the value.
    fn from(value: std::string::String) -> (tag: Self) {
        tag::String::Utf8(value)
    }
}

impl FromSpecImpl<std::string::String> for tag::String {
    open spec fn obeys_from_spec() -> bool {
        true
    }

    open spec fn from_spec(value: std::string::String) -> Self {
        tag::String::Utf8(value)
    }
}


impl TryFrom<NBTTag> for tag::Byte {
    type Error = NBTTag;

    /// Takes out what the tag carries, or hands the tag back where it is of
    /// another type.
    fn try_from(value: NBTTag) -> (r: Result<Self, NBTTag>) {
        match value {
            NBTTag::Byte(v) => Ok(v),
            other => Err(other),
        }
    }
}

impl TryFromSpecImpl<NBTTag> for tag::Byte {
    open spec fn obeys_try_from_spec() -> bool {
        true
    }

    open spec fn try_from_spec(value: NBTTag) -> Result<Self, NBTTag> {
        match value {
            NBTTag::Byte(v) => Ok(v),
            other => Err(other),
        }
    }
}

impl TryFrom<NBTTag> for tag::Short {
    type Error = NBTTag;

    /// Takes out what the tag carries, or hands the tag back where it is of
    /// another type.
    fn try_from(value: NBTTag) -> (r: Result<Self, NBTTag>) {
        match value {
            NBTTag::Short(v) => Ok(v),
            other => Err(other),
        }
    }
}

impl TryFromSpecImpl<NBTTag> for tag::Short {
    open spec fn obeys_try_from_spec() -> bool {
        true
    }

    open spec fn try_from_spec(value: NBTTag) -> Result<Self, NBTTag> {
        match value {
            NBTTag::Short(v) => Ok(v),
            other => Err(other),
        }
    }
}

impl TryFrom<NBTTag> for tag::Int {
    type Error = NBTTag;

    /// Takes out what the tag carries, or hands the tag back where it is of
    /// another type.
    fn try_from(value: NBTTag) -> (r: Result<Self, NBTTag>) {
        match value {
            NBTTag::Int(v) => Ok(v),
            other => Err(other),
        }
    }
}

impl TryFromSpecImpl<NBTTag> for tag::Int {
    open spec fn obeys_try_from_spec() -> bool {
        true
    }

    open spec fn try_from_spec(value: NBTTag) -> Result<Self, NBTTag> {
        match value {
            NBTTag::Int(v) => Ok(v),
            other => Err(other),
        }
    }
}

impl TryFrom<NBTTag> for tag::Long {
    type Error = NBTTag;

    /// Takes out what the tag carries, or hands the tag back where it is of
    /// another type.
    fn try_from(value: NBTTag) -> (r: Result<Self, NBTTag>) {
        match value {
            NBTTag::Long(v) => Ok(v),
            other => Err(other),
        }
    }
}

impl TryFromSpecImpl<NBTTag> for tag::Long {
    open spec fn obeys_try_from_spec() -> bool {
        true
    }

    open spec fn try_from_spec(value: NBTTag) -> Result<Self, NBTTag> {
        match value {
            NBTTag::Long(v) => Ok(v),
            other => Err(other),
        }
    }
}

impl TryFrom<NBTTag> for tag::Float {
    type Error = NBTTag;

    /// Takes out what the tag carries, or hands the tag back where it is of
    /// another type.
    fn try_from(value: NBTTag) -> (r: Result<Self, NBTTag>) {
        match value {
            NBTTag::Float(v) => Ok(v),
            other => Err(other),
        }
    }
}

impl TryFromSpecImpl<NBTTag> for tag::Float {
    open spec fn obeys_try_from_spec() -> bool {
        true
    }

    open spec fn try_from_spec(value: NBTTag) -> Result<Self, NBTTag> {
        match value {
            NBTTag::Float(v) => Ok(v),
            other => Err(other),
        }
    }
}

impl TryFrom<NBTTag> for tag::Double {
    type Error = NBTTag;

    /// Takes out what the tag carries, or hands the tag back where it is of
    /// another type.
    fn try_from(value: NBTTag) -> (r: Result<Self, NBTTag>) {
        match value {
            NBTTag::Double(v) => Ok(v),
            other => Err(other),
        }
    }
}

impl TryFromSpecImpl<NBTTag> for tag::Double {
    open spec fn obeys_try_from_spec() -> bool {
        true
    }

    open spec fn try_from_spec(value: NBTTag) -> Result<Self, NBTTag> {
        match value {
            NBTTag::Double(v) => Ok(v),
            other => Err(other),
        }
    }
}

impl TryFrom<NBTTag> for tag::String {
    type Error = NBTTag;

    /// Takes out what the tag carries, or hands the tag back where it is of
    /// another type.
    fn try_from(value: NBTTag) -> (r: Result<Self, NBTTag>) {
        match value {
            NBTTag::String(v) => Ok(v),
            other => Err(other),
        }
    }
}

impl TryFromSpecImpl<NBTTag> for tag::String {
    open spec fn obeys_try_from_spec() -> bool {
        true
    }

    open spec fn try_from_spec(value: NBTTag) -> Result<Self, NBTTag> {
        match value {
            NBTTag::String(v) => Ok(v),
            other => Err(other),
        }
    }
}

impl TryFrom<NBTTag> for tag::Compound {
    type Error = NBTTag;

    /// Takes out what the tag carries, or hands the tag back where it is of
    /// another type.
    fn try_from(value: NBTTag) -> (r: Result<Self, NBTTag>) {
        match value {
            NBTTag::Compound(v) => Ok(v),
            other => Err(other),
        }
    }
}

impl TryFromSpecImpl<NBTTag> for tag::Compound {
    open spec fn obeys_try_from_spec() -> bool {
        true
    }

    open spec fn try_from_spec(value: NBTTag) -> Result<Self, NBTTag> {
        match value {
            NBTTag::Compound(v) => Ok(v),
            other => Err(other),
        }
    }
}

impl TryFrom<NBTTag> for tag::List {
    type Error = NBTTag;

    /// Takes out what the tag carries, or hands the tag back where it is of
    /// another type.
    fn try_from(value: NBTTag) -> (r: Result<Self, NBTTag>) {
        match value {
            NBTTag::List(v) => Ok(v),
            other => Err(other),
        }
    }
}

impl TryFromSpecImpl<NBTTag> for tag::List {
    open spec fn obeys_try_from_spec() -> bool {
        true
    }

    open spec fn try_from_spec(value: NBTTag) -> Result<Self, NBTTag> {
        match value {
            NBTTag::List(v) => Ok(v),
            other => Err(other),
        }
    }
}

impl TryFrom<NBTTag> for tag::ByteArray {
    type Error = NBTTag;

    /// Takes out what the tag carries, or hands the tag back where it is of
    /// another type.
    fn try_from(value: NBTTag) -> (r: Result<Self, NBTTag>) {
        match value {
            NBTTag::ByteArray(v) => Ok(v),
            other => Err(other),
        }
    }
}

impl TryFromSpecImpl<NBTTag> for tag::ByteArray {
    open spec fn obeys_try_from_spec() -> bool {
        true
    }

    open spec fn try_from_spec(value: NBTTag) -> Result<Self, NBTTag> {
        match value {
            NBTTag::ByteArray(v) => Ok(v),
            other => Err(other),
        }
    }
}

impl TryFrom<NBTTag> for tag::IntArray {
    type Error = NBTTag;

    /// Takes out what the tag carries, or hands the tag back where it is of
    /// another type.
    fn try_from(value: NBTTag) -> (r: Result<Self, NBTTag>) {
        match value {
            NBTTag::IntArray(v) => Ok(v),
            other => Err(other),
        }
    }
}

impl TryFromSpecImpl<NBTTag> for tag::IntArray {
    open spec fn obeys_try_from_spec() -> bool {
        true
    }

    open spec fn try_from_spec(value: NBTTag) -> Result<Self, NBTTag> {
        match value {
            NBTTag::IntArray(v) => Ok(v),
            other => Err(other),
        }
    }
}

impl TryFrom<NBTTag> for tag::LongArray {
    type Error = NBTTag;

    /// Takes out what the tag carries, or hands the tag back where it is of
    /// another type.
    fn try_from(value: NBTTag) -> (r: Result<Self, NBTTag>) {
        match value {
            NBTTag::LongArray(v) => Ok(v),
            other => Err(other),
        }
    }
}

impl TryFromSpecImpl<NBTTag> for tag::LongArray {
    open spec fn obeys_try_from_spec() -> bool {
        true
    }

    open spec fn try_from_spec(value: NBTTag) -> Result<Self, NBTTag> {
        match value {
            NBTTag::LongArray(v) => Ok(v),
            other => Err(other),
        }
    }
}

impl core::ops::Deref for tag::Byte {
    type Target = i8;

    /// What the tag carries.
    fn deref(&self) -> (inner: &i8)
        ensures
            *inner == self.0,
    {
        &self.0
    }
}

impl core::ops::Deref for tag::Short {
    type Target = i16;

    /// What the tag carries.
    fn deref(&self) -> (inner: &i16)
        ensures
            *inner == self.0,
    {
        &self.0
    }
}

impl core::ops::Deref for tag::Int {
    type Target = i32;

    /// What the tag carries.
    fn deref(&self) -> (inner: &i32)
        ensures
            *inner == self.0,
    {
        &self.0
    }
}

impl core::ops::Deref for tag::Long {
    type Target = i64;

    /// What the tag carries.
    fn deref(&self) -> (inner: &i64)
        ensures
            *inner == self.0,
    {
        &self.0
    }
}

impl core::ops::Deref for tag::Float {
    type Target = u32;

    /// What the tag carries.
    fn deref(&self) -> (inner: &u32)
        ensures
            *inner == self.0,
    {
        &self.0
    }
}

impl core::ops::Deref for tag::Double {
    type Target = u64;

    /// What the tag carries.
    fn deref(&self) -> (inner: &u64)
        ensures
            *inner == self.0,
    {
        &self.0
    }
}

impl core::ops::Deref for tag::ByteArray {
    type Target = Vec<i8>;

    /// What the tag carries.
    fn deref(&self) -> (inner: &Vec<i8>)
        ensures
            *inner == self.0,
    {
        &self.0
    }
}

impl core::ops::Deref for tag::IntArray {
    type Target = Vec<i32>;

    /// What the tag carries.
    fn deref(&self) -> (inner: &Vec<i32>)
        ensures
            *inner == self.0,
    {
        &self.0
    }
}

impl core::ops::Deref for tag::LongArray {
    type Target = Vec<i64>;

    /// What the tag carries.
    fn deref(&self) -> (inner: &Vec<i64>)
        ensures
            *inner == self.0,
    {
        &self.0
    }
}

impl core::ops::Deref for tag::List {
    type Target = Vec<NBTTag>;

    /// What the tag carries.
    fn deref(&self) -> (inner: &Vec<NBTTag>)
        ensures
            *inner == self.0,
    {
        &self.0
    }
}

impl core::ops::Deref for tag::Compound {
    type Target = Vec<(std::string::String, NBTTag)>;

    /// What the tag carries.
    fn deref(&self) -> (inner: &Vec<(std::string::String, NBTTag)>)
        ensures
            *inner == self.0,
    {
        &self.0
    }
}

impl core::ops::DerefMut for tag::Byte {
    /// What the tag carries, to be changed in place.
    fn deref_mut(&mut self) -> (inner: &mut i8)
        ensures
            *inner == old(self).0,
            final(self).0 == *final(inner),
    {
        &mut self.0
    }
}

impl core::ops::DerefMut for tag::Short {
    /// What the tag carries, to be changed in place.
    fn deref_mut(&mut self) -> (inner: &mut i16)
        ensures
            *inner == old(self).0,
            final(self).0 == *final(inner),
    {
        &mut self.0
    }
}

impl core::ops::DerefMut for tag::Int {
    /// What the tag carries, to be changed in place.
    fn deref_mut(&mut self) -> (inner: &mut i32)
        ensures
            *inner == old(self).0,
            final(self).0 == *final(inner),
    {
        &mut self.0
    }
}

impl core::ops::DerefMut for tag::Long {
    /// What the tag carries, to be changed in place.
    fn deref_mut(&mut self) -> (inner: &mut i64)
        ensures
            *inner == old(self).0,
            final(self).0 == *final(inner),
    {
        &mut self.0
    }
}

impl core::ops::DerefMut for tag::Float {
    /// What the tag carries, to be changed in place.
    fn deref_mut(&mut self) -> (inner: &mut u32)
        ensures
            *inner == old(self).0,
            final(self).0 == *final(inner),
    {
        &mut self.0
    }
}

impl core::ops::DerefMut for tag::Double {
    /// What the tag carries, to be changed in place.
    fn deref_mut(&mut self) -> (inner: &mut u64)
        ensures
            *inner == old(self).0,
            final(self).0 == *final(inner),
    {
        &mut self.0
    }
}

impl core::ops::DerefMut for tag::ByteArray {
    /// What the tag carries, to be changed in place.
    fn deref_mut(&mut self) -> (inner: &mut Vec<i8>)
        ensures
            *inner == old(self).0,
            final(self).0 == *final(inner),
    {
        &mut self.0
    }
}

impl core::ops::DerefMut for tag::IntArray {
    /// What the tag carries, to be changed in place.
    fn deref_mut(&mut self) -> (inner: &mut Vec<i32>)
        ensures
            *inner == old(self).0,
            final(self).0 == *final(inner),
    {
        &mut self.0
    }
}

impl core::ops::DerefMut for tag::LongArray {
    /// What the tag carries, to be changed in place.
    fn deref_mut(&mut self) -> (inner: &mut Vec<i64>)
        ensures
            *inner == old(self).0,
            final(self).0 == *final(inner),
    {
        &mut self.0
    }
}

impl core::ops::DerefMut for tag::List {
    /// What the tag carries, to be changed in place.
    fn deref_mut(&mut self) -> (inner: &mut Vec<NBTTag>)
        ensures
            *inner == old(self).0,
            final(self).0 == *final(inner),
    {
        &mut self.0
    }
}

impl core::ops::DerefMut for tag::Compound {
    /// What the tag carries, to be changed in place.
    fn deref_mut(&mut self) -> (inner: &mut Vec<(std::string::String, NBTTag)>)
        ensures
            *inner == old(self).0,
            final(self).0 == *final(inner),
    {
        &mut self.0
    }
}

impl From<tag::Byte> for i8 {
    /// Takes out what the tag carries.
    fn from(value: tag::Byte) -> (inner: Self) {
        value.0
    }
}

impl FromSpecImpl<tag::Byte> for i8 {
    open spec fn obeys_from_spec() -> bool {
        true
    }

    open spec fn from_spec(value: tag::Byte) -> Self {
        value.0
    }
}

impl From<tag::Short> for i16 {
    /// Takes out what the tag carries.
    fn from(value: tag::Short) -> (inner: Self) {
        value.0
    }
}

impl FromSpecImpl<tag::Short> for i16 {
    open spec fn obeys_from_spec() -> bool {
        true
    }

    open spec fn from_spec(value: tag::Short) -> Self {
        value.0
    }
}

impl From<tag::Int> for i32 {
    /// Takes out what the tag carries.
    fn from(value: tag::Int) -> (inner: Self) {
        value.0
    }
}

impl FromSpecImpl<tag::Int> for i32 {
    open spec fn obeys_from_spec() -> bool {
        true
    }

    open spec fn from_spec(value: tag::Int) -> Self {
        value.0
    }
}

impl From<tag::Long> for i64 {
    /// Takes out what the tag carries.
    fn from(value: tag::Long) -> (inner: Self) {
        value.0
    }
}

impl FromSpecImpl<tag::Long> for i64 {
    open spec fn obeys_from_spec() -> bool {
        true
    }

    open spec fn from_spec(value: tag::Long) -> Self {
        value.0
    }
}

impl From<tag::Float> for u32 {
    /// Takes out what the tag carries.
    fn from(value: tag::Float) -> (inner: Self) {
        value.0
    }
}

impl FromSpecImpl<tag::Float> for u32 {
    open spec fn obeys_from_spec() -> bool {
        true
    }

    open spec fn from_spec(value: tag::Float) -> Self {
        value.0
    }
}

impl From<tag::Double> for u64 {
    /// Takes out what the tag carries.
    fn from(value: tag::Double) -> (inner: Self) {
        value.0
    }
}

impl FromSpecImpl<tag::Double> for u64 {
    open spec fn obeys_from_spec() -> bool {
        true
    }

    open spec fn from_spec(value: tag::Double) -> Self {
        value.0
    }
}

impl From<tag::ByteArray> for Vec<i8> {
    /// Takes out what the tag carries.
    fn from(value: tag::ByteArray) -> (inner: Self) {
        value.0
    }
}

impl FromSpecImpl<tag::ByteArray> for Vec<i8> {
    open spec fn obeys_from_spec() -> bool {
        true
    }

    open spec fn from_spec(value: tag::ByteArray) -> Self {
        value.0
    }
}

impl From<tag::IntArray> for Vec<i32> {
    /// Takes out what the tag carries.
    fn from(value: tag::IntArray) -> (inner: Self) {
        value.0
    }
}

impl FromSpecImpl<tag::IntArray> for Vec<i32> {
    open spec fn obeys_from_spec() -> bool {
        true
    }

    open spec fn from_spec(value: tag::IntArray) -> Self {
        value.0
    }
}

impl From<tag::LongArray> for Vec<i64> {
    /// Takes out what the tag carries.
    fn from(value: tag::LongArray) -> (inner: Self) {
        value.0
    }
}

impl FromSpecImpl<tag::LongArray> for Vec<i64> {
    open spec fn obeys_from_spec() -> bool {
        true
    }

    open spec fn from_spec(value: tag::LongArray) -> Self {
        value.0
    }
}

impl From<tag::List> for Vec<NBTTag> {
    /// Takes out what the tag carries.
    fn from(value: tag::List) -> (inner: Self) {
        value.0
    }
}

impl FromSpecImpl<tag::List> for Vec<NBTTag> {
    open spec fn obeys_from_spec() -> bool {
        true
    }

    open spec fn from_spec(value: tag::List) -> Self {
        value.0
    }
}

impl From<tag::compound::Builder> for tag::Compound {
    /// Takes out the compound that was built.
    fn from(value: tag::compound::Builder) -> (built: Self) {
        value.build()
    }
}

impl FromSpecImpl<tag::compound::Builder> for tag::Compound {
    open spec fn obeys_from_spec() -> bool {
        true
    }

    open spec fn from_spec(value: tag::compound::Builder) -> Self {
        value.built()
    }
}

} // verus!
