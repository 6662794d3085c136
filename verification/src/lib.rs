//! Verified core of a desktop front end for yt-dlp: argument and output
//! parsing, version handling, release URLs, tool settings and task state.

pub mod text;
pub mod arguments;
pub mod process;
pub mod files;
pub mod numbers;
pub mod dates;
pub mod html;
pub mod cli;
pub mod versions;
pub mod source;
pub mod releases;
pub mod keys;
pub mod tool_tasks;
pub mod json;
pub mod channel;
pub mod archive;
pub mod sync;
pub mod jobs;
pub mod enrich;
pub mod download;
pub mod install;
pub mod ytdlp;
pub mod toolbox;
pub mod livechat;
pub mod records;
pub mod plugins;
pub mod bridge;
pub mod zipfile;
