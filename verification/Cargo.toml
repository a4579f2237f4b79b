[package]
name = "neur"
version = "0.1.0"
edition = "2021"
publish = false

[dependencies]
clap = { version = "*", features = ["derive"] }
comrak = { version = "*", default-features = false }
lightningcss = { version = "1.0.0-alpha.72", features = ["browserslist"] }
markdown-frontmatter = "*"
minify-html = "*"
serde = { version = "*", features = ["derive"] }
tera = "1"
toml = "*"
