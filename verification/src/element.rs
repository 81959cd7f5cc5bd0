//! The child content the containers lay out.
//!
//! A child is a leaf box: it reports a minimum size and the length it asks for
//! on each axis, and may carry a key that identifies it across frames.

use vstd::prelude::*;

use crate::style::Length;

verus! {

/// A child element: a box with a minimum size and requested lengths.
#[derive(Clone, Debug)]
pub struct Element {
    pub min_w: u16,
    pub min_h: u16,
    pub width: Length,
    pub height: Length,
    pub key: Option<String>,
    /// Portal children render elsewhere and take no space in their parent.
    pub portal: bool,
}

impl Element {
    /// An auto-sized box of the given minimum size.
    pub fn sized(min_w: u16, min_h: u16) -> (r: Self)
        ensures
            r.min_w == min_w && r.min_h == min_h,
            r.width == Length::Auto && r.height == Length::Auto,
            r.key is None,
            !r.portal,
    {
        Element { min_w, min_h, width: Length::Auto, height: Length::Auto, key: None, portal: false }
    }

    /// Requests a width.
    pub fn width(self, width: Length) -> (r: Self)
        ensures
            r == (Element { width, ..self }),
    {
        Element { width, ..self }
    }

    /// Requests a height.
    pub fn height(self, height: Length) -> (r: Self)
        ensures
            r == (Element { height, ..self }),
    {
        Element { height, ..self }
    }

    /// Names the element.
    pub fn key(self, key: &str) -> (r: Self)
        ensures
            r.key matches Some(k) && k@ == key@,
            r.min_w == self.min_w && r.min_h == self.min_h && r.width == self.width && r.height == self.height
                && r.portal == self.portal,
    {
        Element { key: Some(String::from_str(key)), ..self }
    }

    /// Marks the element as a portal.
    pub fn portal(self) -> (r: Self)
        ensures
            r == (Element { portal: true, ..self }),
    {
        Element { portal: true, ..self }
    }

    /// The element's minimum size within the given limits: a box keeps its
    /// own minimum whatever room it is offered.
    pub fn min_size_constrained(&self, max_w: Option<u16>, max_h: Option<u16>) -> (r: (u16, u16))
        ensures
            r == (self.min_w, self.min_h),
    {
        (self.min_w, self.min_h)
    }

    /// The length the element asks for along the horizontal (`true`) or vertical axis.
    pub fn requested_main_axis(&self, horizontal: bool) -> (r: Length)
        ensures
            r == if horizontal { self.width } else { self.height },
    {
        if horizontal { self.width } else { self.height }
    }
}

} // verus!
