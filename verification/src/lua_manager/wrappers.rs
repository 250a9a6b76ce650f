//! Wrappers for `lua` and `luac` that run the version a project asks for.

use vstd::prelude::*;
use crate::path::{join, join_path};
use crate::text::{concat2, concat3, eq_str, owned};

verus! {

/// The wrapper program's text before the binary's name first appears.
pub open spec fn wrapper_head() -> Seq<char> {
    r#"fn main() {
    use std::env;
    use std::path::PathBuf;
    use std::process::Command;
    
    let lpm_home = env::var("LPM_LUA_DIR")
        .unwrap_or_else(|_| {
            #[cfg(unix)]
            {
                let home = env::var("HOME").expect("HOME environment variable not set");
                format!("{}/.lpm", home)
            }
            #[cfg(windows)]
            {
                let home = env::var("APPDATA").expect("APPDATA environment variable not set");
                format!("{}\\\\lpm", home)
            }
        });
    
    // Check for .lua-version file
    let mut dir = env::current_dir().unwrap();
    let mut version = None;
    
    loop {
        let version_file = dir.join(".lua-version");
        if version_file.exists() {
            if let Ok(content) = std::fs::read_to_string(&version_file) {
                version = Some(content.trim().to_string());
                break;
            }
        }
        
        if let Some(parent) = dir.parent() {
            dir = parent.to_path_buf();
        } else {
            break;
        }
    }
    
    // Determine which binary to use
    let bin_path = if let Some(ver) = version {
        let version_dir = PathBuf::from(&lpm_home).join("versions").join(&ver);
        version_dir.join("bin").join(""#@
}

/// The wrapper program's text between the two appearances of the name.
pub open spec fn wrapper_middle() -> Seq<char> {
    r#"")
    } else {
        // Use current version (read from current file)
        let current_file = PathBuf::from(&lpm_home).join("current");
        if current_file.exists() {
            if let Ok(version) = std::fs::read_to_string(&current_file) {
                let version = version.trim();
                if !version.is_empty() {
                    PathBuf::from(&lpm_home).join("versions").join(version).join("bin").join(""#@
}

/// The wrapper program's text after the name's second appearance.
pub open spec fn wrapper_tail() -> Seq<char> {
    r#"")
                } else {
                    eprintln!("Error: No Lua version is currently selected");
                    eprintln!("Run: lpm lua use <version>");
                    std::process::exit(1);
                }
            } else {
                eprintln!("Error: Failed to read current version file");
                std::process::exit(1);
            }
        } else {
            eprintln!("Error: No Lua version is currently selected");
            eprintln!("Run: lpm lua use <version>");
            std::process::exit(1);
        }
    };
    
    if !bin_path.exists() {
        eprintln!("Error: Lua binary not found at {}", bin_path.display());
        std::process::exit(1);
    }
    
    // Execute the binary with all arguments
    let args: Vec<String> = env::args().skip(1).collect();
    let status = Command::new(&bin_path)
        .args(&args)
        .status()
        .expect("Failed to execute Lua binary");
    
    std::process::exit(status.code().unwrap_or(1));
}
"#@
}

/// The source of the wrapper program for a binary.
pub open spec fn wrapper_source(binary: Seq<char>) -> Seq<char> {
    wrapper_head() + binary + wrapper_middle() + binary + wrapper_tail()
}

/// Generates the `lua` and `luac` wrappers in the `bin` directory of the
/// LPM home.
#[derive(Debug)]
pub struct WrapperGenerator {
    pub bin_dir: String,
}

impl WrapperGenerator {
    /// A generator whose wrappers go to `bin` in the LPM home.
    pub fn new(lpm_home: &str) -> (g: Self)
        ensures
            g.bin_dir@ == join_path(lpm_home@, "bin"@),
    {
        WrapperGenerator { bin_dir: join(lpm_home, "bin") }
    }

    /// The Rust source of the wrapper for `binary`: it looks for a
    /// `.lua-version` file from the current directory upwards, falls back to
    /// the current version, and runs that version's binary with the
    /// arguments it was given.
    pub fn wrapper_source_code(&self, binary: &str) -> (r: String)
        ensures
            r@ == wrapper_source(binary@),
    {
        let a = concat3(
            r#"fn main() {
    use std::env;
    use std::path::PathBuf;
    use std::process::Command;
    
    let lpm_home = env::var("LPM_LUA_DIR")
        .unwrap_or_else(|_| {
            #[cfg(unix)]
            {
                let home = env::var("HOME").expect("HOME environment variable not set");
                format!("{}/.lpm", home)
            }
            #[cfg(windows)]
            {
                let home = env::var("APPDATA").expect("APPDATA environment variable not set");
                format!("{}\\\\lpm", home)
            }
        });
    
    // Check for .lua-version file
    let mut dir = env::current_dir().unwrap();
    let mut version = None;
    
    loop {
        let version_file = dir.join(".lua-version");
        if version_file.exists() {
            if let Ok(content) = std::fs::read_to_string(&version_file) {
                version = Some(content.trim().to_string());
                break;
            }
        }
        
        if let Some(parent) = dir.parent() {
            dir = parent.to_path_buf();
        } else {
            break;
        }
    }
    
    // Determine which binary to use
    let bin_path = if let Some(ver) = version {
        let version_dir = PathBuf::from(&lpm_home).join("versions").join(&ver);
        version_dir.join("bin").join(""#,
            binary,
            r#"")
    } else {
        // Use current version (read from current file)
        let current_file = PathBuf::from(&lpm_home).join("current");
        if current_file.exists() {
            if let Ok(version) = std::fs::read_to_string(&current_file) {
                let version = version.trim();
                if !version.is_empty() {
                    PathBuf::from(&lpm_home).join("versions").join(version).join("bin").join(""#,
        );
        let b = concat3(
            a.as_str(),
            binary,
            r#"")
                } else {
                    eprintln!("Error: No Lua version is currently selected");
                    eprintln!("Run: lpm lua use <version>");
                    std::process::exit(1);
                }
            } else {
                eprintln!("Error: Failed to read current version file");
                std::process::exit(1);
            }
        } else {
            eprintln!("Error: No Lua version is currently selected");
            eprintln!("Run: lpm lua use <version>");
            std::process::exit(1);
        }
    };
    
    if !bin_path.exists() {
        eprintln!("Error: Lua binary not found at {}", bin_path.display());
        std::process::exit(1);
    }
    
    // Execute the binary with all arguments
    let args: Vec<String> = env::args().skip(1).collect();
    let status = Command::new(&bin_path)
        .args(&args)
        .status()
        .expect("Failed to execute Lua binary");
    
    std::process::exit(status.code().unwrap_or(1));
}
"#,
        );
        b
    }

    /// Where the source of a wrapper is written: `<binary>_wrapper.rs` in
    /// the `bin` directory.
    pub fn source_path(&self, binary: &str) -> (r: String)
        ensures
            r@ == join_path(self.bin_dir@, binary@ + "_wrapper.rs"@),
    {
        let name = concat2(binary, "_wrapper.rs");
        join(self.bin_dir.as_str(), name.as_str())
    }

    /// The file name of a compiled wrapper: with `.exe` on Windows.
    pub fn output_name(binary: &str, os: &str) -> (r: String)
        ensures
            r@ == if os@ == "windows"@ { binary@ + ".exe"@ } else { binary@ },
    {
        if eq_str(os, "windows") {
            concat2(binary, ".exe")
        } else {
            owned(binary)
        }
    }

    /// The error when a wrapper does not compile.
    pub fn wrapper_build_error(binary: &str) -> (e: crate::error::LpmError)
        ensures
            e matches crate::error::LpmError::Package(m) && m@ == "Failed to compile "@ + binary@
                + " wrapper. Make sure rustc is available."@,
    {
        crate::error::LpmError::Package(concat3("Failed to compile ", binary, " wrapper. Make sure rustc is available."))
    }

    /// The instructions printed after the wrappers are made, line by line.
    pub fn setup_instructions(&self, os: &str) -> (r: Vec<String>)
        ensures
            r@.len() == 6,
            r@[0]@.len() == 0,
            r@[1]@ == "To use LPM-managed Lua versions, add this to your PATH:"@,
            r@[2]@ == "  "@ + self.bin_dir@,
            r@[3]@.len() == 0,
            os@ == "windows"@ ==> r@[4]@ == "On Windows, you can add it permanently with:"@
                && r@[5]@ == "  setx PATH \"%PATH%;"@ + self.bin_dir@ + "\""@,
            os@ != "windows"@ ==> r@[4]@ == "On Unix/macOS, add to your shell profile:"@
                && r@[5]@ == "  export PATH=\""@ + self.bin_dir@ + "$PATH\""@,
    {
        let mut r: Vec<String> = Vec::new();
        r.push(String::new());
        r.push(owned("To use LPM-managed Lua versions, add this to your PATH:"));
        r.push(concat2("  ", self.bin_dir.as_str()));
        r.push(String::new());
        if eq_str(os, "windows") {
            r.push(owned("On Windows, you can add it permanently with:"));
            r.push(concat3("  setx PATH \"%PATH%;", self.bin_dir.as_str(), "\""));
        } else {
            r.push(owned("On Unix/macOS, add to your shell profile:"));
            r.push(concat3("  export PATH=\"", self.bin_dir.as_str(), "$PATH\""));
        }
        r
    }
}

} // verus!
