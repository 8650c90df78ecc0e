use colored::Colorize;
use rsfetch::art::{
    art_after_read, art_cell, art_column_width, art_first_step, builtin_art_text, ArtStep, CAT_ART,
    CRAB_ART, TREE_ART,
};
use rsfetch::config::default_config;
use rsfetch::report::{
    cpu_label, format_uptime, gpu_label, host_label, kernel_label, rule_line, rust_label,
    shell_label, shown_fields, title_line, GpuInfo, InfoField,
};
use rsfetch::style::{color_for_lowercase, color_from_name, colorize, TextColor};

#[test]
fn uptime_formats() {
    assert_eq!(format_uptime(0), "0h 0m");
    assert_eq!(format_uptime(59), "0h 0m");
    assert_eq!(format_uptime(3 * 3600 + 25 * 60 + 7), "3h 25m");
    assert_eq!(format_uptime(86400), "1d 0h 0m");
    assert_eq!(format_uptime(2 * 86400 + 5 * 3600 + 61), "2d 5h 1m");
    assert_eq!(format_uptime(86399), "23h 59m");
}

#[test]
fn cpu_names_are_cleaned() {
    assert_eq!(
        cpu_label(Some("Intel(R) Core(TM) i7-8700 CPU @ 3.20GHz")),
        "Intel Core i7-8700  @ 3.20GHz"
    );
    assert_eq!(cpu_label(Some("  AMD Ryzen 7 5800X 8-Core Processor  ")), "AMD Ryzen 7 5800X 8-Core Processor");
    assert_eq!(cpu_label(Some("CPU(R)")), "");
    assert_eq!(cpu_label(Some("(T(TM)M)")), "(TM)");
    assert_eq!(cpu_label(None), "Unknown");
}

#[test]
fn cpu_names_agree_with_std_replace() {
    for b in ["Intel(R) Xeon(R) CPU E5", "CPUCPU", "(R(R))", "ARM Cortex"] {
        let expect = b.replace("(R)", "").replace("(TM)", "").replace("CPU", "").trim().to_string();
        assert_eq!(cpu_label(Some(b)), expect);
    }
}

#[test]
fn shell_names() {
    assert_eq!(shell_label(Some("/bin/bash")), "bash");
    assert_eq!(shell_label(Some("/usr/local/bin/fish")), "fish");
    assert_eq!(shell_label(Some("zsh")), "zsh");
    assert_eq!(shell_label(Some("/bin/")), "");
    assert_eq!(shell_label(None), "unknown");
}

#[test]
fn gpu_labels() {
    assert_eq!(gpu_label(None), "Unknown GPU");
    assert_eq!(
        gpu_label(Some(GpuInfo { vendor: Some("NVIDIA".into()), name: Some("RTX 3080".into()) })),
        "NVIDIA RTX 3080"
    );
    assert_eq!(gpu_label(Some(GpuInfo { vendor: None, name: Some("X".into()) })), " X");
    assert_eq!(gpu_label(Some(GpuInfo { vendor: None, name: None })), " ");
}

#[test]
fn kernel_and_host_labels() {
    assert_eq!(kernel_label(Some("6.1.0")), "6.1.0");
    assert_eq!(kernel_label(None), "Unknown");
    assert_eq!(host_label(Some("box")), "box");
    assert_eq!(host_label(None), "Unknown");
}

#[test]
fn rust_labels() {
    assert_eq!(rust_label(Some(b"rustc 1.75.0 (82e1608df 2023-12-21)\n")), "rustc 1.75.0 (82e1608df 2023-12-21)");
    assert_eq!(rust_label(Some(b"\xffx\n")), "\u{fffd}x");
    assert_eq!(rust_label(None), "Rust not found");
}

#[test]
fn title_and_rule() {
    let t = title_line(60);
    assert_eq!(t, format!("{:^60}", "RsFetch - System Information"));
    assert_eq!(t.chars().count(), 60);
    assert_eq!(title_line(10), "RsFetch - System Information");
    assert_eq!(rule_line(4), "----");
}

#[test]
fn fields_follow_display_settings() {
    let mut d = default_config().display;
    assert_eq!(shown_fields(&d).len(), 10);
    d.show_host = false;
    d.show_username = false;
    d.show_memory = false;
    let f = shown_fields(&d);
    assert_eq!(f[0], InfoField::Host);
    assert!(!f.contains(&InfoField::Username));
    assert!(!f.contains(&InfoField::Memory));
    assert_eq!(f.len(), 8);
    let labels: Vec<&str> = f.iter().map(|x| x.label()).collect();
    assert_eq!(labels, vec!["Host", "OS", "Kernel", "Uptime", "CPU", "GPU", "Shell", "Rust"]);
}

#[test]
fn colour_names() {
    assert_eq!(color_for_lowercase("red"), Some(TextColor::Red));
    assert_eq!(color_for_lowercase("black"), Some(TextColor::Black));
    assert_eq!(color_for_lowercase("Red"), None);
    assert_eq!(color_for_lowercase("purple"), None);
    assert_eq!(color_from_name("YeLLoW"), Some(TextColor::Yellow));
    assert_eq!(color_from_name("bright red"), None);
    assert_eq!(color_from_name(""), None);
}

#[test]
fn colorize_matches_colored() {
    assert_eq!(colorize("hi", "RED"), "hi".red());
    assert_eq!(colorize("hi", "magenta"), "hi".magenta());
    assert_eq!(colorize("hi", "Cyan"), "hi".cyan());
    assert_eq!(colorize("hi", "orange"), "hi".normal());
    assert_eq!(colorize("hi", "purple"), "hi".normal());
}

#[test]
fn builtin_arts() {
    assert_eq!(builtin_art_text("cat"), CAT_ART);
    assert_eq!(builtin_art_text("tree"), TREE_ART);
    assert_eq!(builtin_art_text("nope"), CRAB_ART);
    assert_eq!(builtin_art_text("Cat"), CRAB_ART);
}

#[test]
fn art_steps() {
    let mut a = default_config().ascii;
    match art_first_step(&a) {
        ArtStep::Lines(l) => {
            assert_eq!(l.len(), 5);
            assert_eq!(l[0], "");
            assert_eq!(l[2], "\\) /  o o  \\ (/");
        }
        ArtStep::ReadFile(_) => panic!("no file expected"),
    }
    a.custom_art_path = Some("~/art.txt".to_string());
    assert!(matches!(art_first_step(&a), ArtStep::ReadFile(p) if p == "~/art.txt"));
    a.custom_art = Some(String::new());
    assert!(matches!(art_first_step(&a), ArtStep::ReadFile(_)));
    a.custom_art = Some("A\nB\n".to_string());
    assert!(matches!(art_first_step(&a), ArtStep::Lines(l) if l == vec!["A".to_string(), "B".to_string()]));
    a.art_style = "cat".to_string();
    assert_eq!(art_after_read(Some("x\ny"), &a), vec!["x".to_string(), "y".to_string()]);
    assert_eq!(art_after_read(None, &a).len(), 6);
}

#[test]
fn art_cells() {
    assert_eq!(art_column_width(16), 18);
    assert_eq!(art_column_width(0), 11);
    assert_eq!(art_column_width(9), 11);
    let art = vec!["ab".to_string()];
    assert_eq!(art_cell(&art, 0, 5), "ab   ");
    assert_eq!(art_cell(&art, 3, 4), "    ");
}
