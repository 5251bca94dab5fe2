//! Fixed-size time types, log-linear histograms built on them, and heatmaps
//! that keep a histogram per slice of time.
pub mod clocksource;
pub mod heatmap;
pub mod heatmap2;
pub mod histogram;
