//! Course-generation engine for competency-based academy content: KSB
//! frameworks, title similarity, research quality findings, course
//! formatting and course validation.

pub mod formatting;
pub mod ksb;
pub mod quality;
pub mod stage;
pub mod text;
pub mod validation;
