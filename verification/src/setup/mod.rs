//! Decisions of locating and installing a Chromium-based browser.
pub mod browser;
