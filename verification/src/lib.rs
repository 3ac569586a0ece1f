pub mod bucket;
pub mod calendar;
pub mod elf;
pub mod listing;
pub mod netinfo;
pub mod perms;
pub mod procstat;
pub mod repology;
pub mod repology_pages;
pub mod text;
pub mod sched;
pub mod todo;
pub mod walker;
