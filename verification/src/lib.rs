//! Verified logic behind a collection of small web endpoints. The heart is a
//! four-in-a-row game on a 4×4 board; around it stand address arithmetic,
//! orders read from a manifest, a milk bucket, paging through quotes, and
//! fragments of a decorated tree page.

pub mod text;
pub mod day_two;
pub mod day_five;
pub mod day_nine;
pub mod day_twelve;
pub mod board_laws;
pub mod day_sixteen;
pub mod day_nineteen;
pub mod day_twentythree;
