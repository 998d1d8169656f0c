use paddock::probe::{parse_smi_line, smi_gpus, smi_line_fits};

#[test]
fn smi_output_parses_into_a_gpu() {
    let line = "0, NVIDIA GeForce RTX 5090, GPU-9e8d7c6b-5a49-4f13-8207-c1b0a4e6d3f5, \
                32607, 21440, 87, 61, 412.50, 575.00, 5, 16";
    let g = parse_smi_line(line).unwrap();
    assert_eq!(g.index, 0);
    assert_eq!(g.name, "NVIDIA GeForce RTX 5090");
    assert_eq!(g.memory_total, 32607 * 1024 * 1024);
    assert_eq!(g.utilization, Some(87));
    assert_eq!(g.temperature, Some(61));
    assert_eq!(g.power_draw.as_ref().map(|w| w.parse::<f64>().unwrap()), Some(412.5));
    assert_eq!(g.pcie_link.as_deref(), Some("gen5 x16"));
    assert_eq!(g.short_uuid(), "GPU-9e8d7c6b-5a4");
}

#[test]
fn unavailable_smi_fields_become_none() {
    let line = "1, NVIDIA GeForce RTX 3060 Ti, GPU-abc, 8192, 512, [N/A], 45, [N/A], , , ";
    let g = parse_smi_line(line).unwrap();
    assert_eq!(g.utilization, None);
    assert_eq!(g.power_draw, None);
    assert_eq!(g.pcie_link, None);
    assert_eq!(g.temperature, Some(45));
    assert_eq!(g.memory_free(), (8192 - 512) * 1024 * 1024);
}

#[test]
fn a_truncated_smi_line_is_rejected() {
    assert!(parse_smi_line("0, GPU, uuid").is_none());
}

#[test]
fn a_memory_size_that_no_word_holds_is_told_apart() {
    let line = "0, GPU, u, 18446744073709551615, 0, 1, 2, 3.0, 4.0, 5, 6";
    assert!(!smi_line_fits(line));
    assert!(smi_line_fits("0, GPU, u, 100, 0, 1, 2, 3.0, 4.0, 5, 6"));
}

#[test]
fn every_readable_line_is_a_gpu() {
    let out = "0, A, GPU-a, 100, 1, 2, 3, 4.0, 5.0, 4, 16\nnonsense\n1, B, GPU-b, 200, 1, 2, 3, 4.0, 5.0, 4, 8\n";
    let gpus = smi_gpus(out);
    assert_eq!(gpus.len(), 2);
    assert_eq!(gpus[1].name, "B");
    assert_eq!(gpus[1].pcie_link.as_deref(), Some("gen4 x8"));
}
