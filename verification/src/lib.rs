//! A bounded, memoized evaluator for the two-term linear recurrence
//! F(0) = 0, F(1) = 1, F(n) = F(n-1) + F(n-2), together with the input
//! classification for the interactive menu around it and a handful of small
//! string helpers.

pub mod basics;
pub mod fib;
pub mod menu;
pub mod strings;
