use rzem_ai_inference::inference::samplers::{SamplerType, SchedulerType};

#[test]
fn test_sampler_type_display() {
    assert_eq!(SamplerType::Euler.to_string(), "euler");
    assert_eq!(SamplerType::EulerA.to_string(), "euler_a");
    assert_eq!(SamplerType::DpmPP2M.to_string(), "dpm_pp_2m");
}

#[test]
fn test_sampler_type_parse() {
    assert_eq!("euler".parse::<SamplerType>().unwrap(), SamplerType::Euler);
    assert_eq!("euler_a".parse::<SamplerType>().unwrap(), SamplerType::EulerA);
    assert_eq!("dpm_pp_2m".parse::<SamplerType>().unwrap(), SamplerType::DpmPP2M);
    assert_eq!("dpmpp2m".parse::<SamplerType>().unwrap(), SamplerType::DpmPP2M);
}

#[test]
fn test_scheduler_type_display() {
    assert_eq!(SchedulerType::Normal.to_string(), "normal");
    assert_eq!(SchedulerType::Karras.to_string(), "karras");
    assert_eq!(SchedulerType::Exponential.to_string(), "exponential");
}

#[test]
fn test_scheduler_type_parse() {
    assert_eq!("normal".parse::<SchedulerType>().unwrap(), SchedulerType::Normal);
    assert_eq!("karras".parse::<SchedulerType>().unwrap(), SchedulerType::Karras);
    assert_eq!("exponential".parse::<SchedulerType>().unwrap(), SchedulerType::Exponential);
}

#[test]
fn sampler_parse_ignores_case() {
    assert_eq!("EULER_A".parse::<SamplerType>().unwrap(), SamplerType::EulerA);
    assert_eq!("Karras".parse::<SchedulerType>().unwrap(), SchedulerType::Karras);
}

#[test]
fn sampler_parse_rejects_unknown_names() {
    let e = "heun".parse::<SamplerType>();
    assert!(e.is_err());
    let f = "cosine".parse::<SchedulerType>();
    assert_eq!(f.unwrap_err(), "Unknown scheduler: cosine");
    assert_eq!("linear".parse::<SchedulerType>().unwrap(), SchedulerType::Normal);
    assert_eq!("DPM++2M".parse::<SamplerType>().unwrap(), SamplerType::DpmPP2M);
}

#[test]
fn wire_names_parse_back() {
    for s in SamplerType::all() {
        assert_eq!(s.to_string().parse::<SamplerType>().unwrap(), s);
    }
    for s in SchedulerType::all() {
        assert_eq!(s.to_string().parse::<SchedulerType>().unwrap(), s);
    }
}

#[test]
fn defaults_are_euler_and_normal() {
    assert_eq!(SamplerType::default(), SamplerType::Euler);
    assert_eq!(SchedulerType::default(), SchedulerType::Normal);
}
