//! A compiler for declarative resource files.
//!
//! Resource files declare strings, numbers, booleans, colors, URLs,
//! dimensions, arrays and templates, grouped in namespaces. The compiler
//! turns them into constant declarations of the host language, nested in
//! modules that mirror the namespaces, so that an application refers to
//! `ui::colors::PRIMARY` instead of parsing anything at run time.
//!
//! The stages, in the order in which a file passes through them:
//!
//! - [`environment`] takes out what belongs to another build profile;
//! - [`reader`] reads the markup into declarations ([`ast`]);
//! - [`parser`] files the declarations in the resource [`table`], reading
//!   strings as plain text, references or interpolations ([`types`]) and
//!   classifying numbers ([`numbers`]);
//! - [`references`] checks that every pure reference has a target;
//! - [`generator`] emits the modules, using the namespace [`tree`] of the
//!   [`entries`], the definitions of single resources ([`emit`],
//!   [`arrays`], [`template`]) and the resolution of interpolations
//!   ([`resolve`]);
//! - [`compiler`] runs all of it on the text of a set of files.
//!
//! Every function states in its contract what it computes, over the
//! mathematical values of its arguments, and is proved to do so. What rests
//! on the standard library's Unicode tables, on `bigdecimal` and on
//! `quick_xml` is named where it enters ([`text`], [`numbers`],
//! [`reader::xml`]).
pub mod text;
pub mod utils;
pub mod ast;
pub mod reader;
pub mod types;
pub mod numbers;
pub mod table;
pub mod parser;
pub mod references;
pub mod entries;
pub mod tree;
pub mod resolve;
pub mod template;
pub mod arrays;
pub mod emit;
pub mod generator;
pub mod environment;
pub mod ir;
pub mod compiler;

pub use compiler::{build, CompileError};

use vstd::prelude::*;

verus! {

/// A color with its red, green, blue and alpha channels.
#[derive(Copy, Clone, Debug, PartialEq, Eq)]
pub struct Color {
    r: u8,
    g: u8,
    b: u8,
    a: u8,
}

impl Color {
    /// The channels of the color.
    pub closed spec fn channels(&self) -> (u8, u8, u8, u8) {
        (self.r, self.g, self.b, self.a)
    }

    #[must_use]
    pub fn new(r: u8, g: u8, b: u8, a: u8) -> (c: Self)
        ensures
            c.channels() == (r, g, b, a),
    {
        Color { r, g, b, a }
    }

    #[must_use]
    pub fn r(&self) -> (v: u8)
        ensures
            v == self.channels().0,
    {
        self.r
    }

    #[must_use]
    pub fn g(&self) -> (v: u8)
        ensures
            v == self.channels().1,
    {
        self.g
    }

    #[must_use]
    pub fn b(&self) -> (v: u8)
        ensures
            v == self.channels().2,
    {
        self.b
    }

    #[must_use]
    pub fn a(&self) -> (v: u8)
        ensures
            v == self.channels().3,
    {
        self.a
    }

    /// The color as one number: alpha in the highest byte, then red,
    /// green and blue.
    #[must_use]
    pub fn to_rgba_u32(&self) -> (v: u32)
        ensures
            v == self.channels().3 * 0x100_0000 + self.channels().0 * 0x1_0000 + self.channels().1
                * 0x100 + self.channels().2,
    {
        let a = self.a as u32;
        let r = self.r as u32;
        let g = self.g as u32;
        let b = self.b as u32;
        assert(a < 256 && r < 256 && g < 256 && b < 256 ==> ((a << 24) | (r << 16) | (g << 8) | b)
            == a * 0x100_0000 + r * 0x1_0000 + g * 0x100 + b) by (bit_vector);
        (a << 24) | (r << 16) | (g << 8) | b
    }

    #[must_use]
    pub fn to_rgb_tuple(&self) -> (v: (u8, u8, u8))
        ensures
            v == (self.channels().0, self.channels().1, self.channels().2),
    {
        (self.r, self.g, self.b)
    }
}

/// The parts of a URL.
#[derive(Copy, Clone, Debug, PartialEq, Eq)]
pub struct UrlParts {
    scheme: &'static str,
    host: &'static str,
    path: &'static str,
}

impl UrlParts {
    /// The parts of the URL: scheme, host and path.
    pub closed spec fn parts(&self) -> (Seq<char>, Seq<char>, Seq<char>) {
        (self.scheme@, self.host@, self.path@)
    }

    #[must_use]
    pub fn new(scheme: &'static str, host: &'static str, path: &'static str) -> (u: Self)
        ensures
            u.parts() == (scheme@, host@, path@),
    {
        UrlParts { scheme, host, path }
    }

    #[must_use]
    pub fn scheme(&self) -> (s: &'static str)
        ensures
            s@ == self.parts().0,
    {
        self.scheme
    }

    #[must_use]
    pub fn host(&self) -> (s: &'static str)
        ensures
            s@ == self.parts().1,
    {
        self.host
    }

    #[must_use]
    pub fn path(&self) -> (s: &'static str)
        ensures
            s@ == self.parts().2,
    {
        self.path
    }
}

} // verus!
