use dcc_decoder::cv::default_values;
use dcc_decoder::cv::image::CvImage;
use dcc_decoder::motor::speed::accel::{Config, Delay, Helper, SpeedStep, SpeedTarget};
use dcc_decoder::motor::{Direction, VelocitySetpoint};

fn default_config() -> Config {
    Config {
        accel_rate: 10,
        decel_rate: 10,
        loop_delay: 7,
    }
}

fn config_no_ramp() -> Config {
    Config {
        accel_rate: 0,
        decel_rate: 0,
        loop_delay: 7,
    }
}

#[test]
fn test_speed_step_idx() {
    assert_eq!(SpeedStep::Stop.idx(), 0);
    assert_eq!(SpeedStep::EmergencyStop.idx(), 0);
    assert_eq!(SpeedStep::Num(5).idx(), 5);
    assert_eq!(SpeedStep::Num(126).idx(), 126);
}

#[test]
fn test_speed_target_default() {
    let target = SpeedTarget::default();
    assert_eq!(target.speed_step, SpeedStep::Stop);
    assert_eq!(target.direction, Direction::Forward);
}

#[test]
fn test_new_speed_control() {
    let config = default_config();
    let control = Helper::new(config);
    assert_eq!(control.current, SpeedTarget::default());
    assert_eq!(control.target, SpeedTarget::default());
}

#[test]
fn test_set_target() {
    let mut control = Helper::new(default_config());
    let new_target = SpeedTarget {
        speed_step: SpeedStep::Num(50),
        direction: Direction::Forward,
    };
    control.set_target(new_target);
    assert_eq!(control.target, new_target);
}

#[test]
fn test_step_when_at_target_returns_max_delay() {
    let mut control = Helper::new(default_config());
    let (current, delay) = control.step();
    assert_eq!(current, SpeedTarget::default());
    assert_eq!(delay, Delay::Never);
}

#[test]
fn test_acceleration_with_rate() {
    let mut control = Helper::new(default_config());
    control.set_target(SpeedTarget {
        speed_step: SpeedStep::Num(10),
        direction: Direction::Forward,
    });

    // First step should increment by 1
    let (current, delay) = control.step();
    assert_eq!(current.speed_step.idx(), 1);
    assert_eq!(current.direction, Direction::Forward);
    assert_eq!(delay, Delay::Millis(7 * 10)); // accel_rate * loop_delay
}

#[test]
fn test_acceleration_steps_gradually() {
    let mut control = Helper::new(default_config());
    control.set_target(SpeedTarget {
        speed_step: SpeedStep::Num(5),
        direction: Direction::Forward,
    });

    let mut speeds = Vec::new();
    for _ in 0..10 {
        let (current, delay) = control.step();
        speeds.push(current.speed_step.idx());
        if delay == Delay::Never {
            break;
        }
    }

    assert_eq!(speeds, vec![1, 2, 3, 4, 5]);
}

#[test]
fn test_acceleration_without_rate_jumps_immediately() {
    let mut control = Helper::new(config_no_ramp());
    control.set_target(SpeedTarget {
        speed_step: SpeedStep::Num(50),
        direction: Direction::Forward,
    });

    let (current, _) = control.step();
    assert_eq!(current.speed_step.idx(), 50);
}

#[test]
fn test_deceleration_with_rate() {
    let mut control = Helper::new(default_config());

    // Start at control 10
    control.current = SpeedTarget {
        speed_step: SpeedStep::Num(10),
        direction: Direction::Forward,
    };
    control.target = control.current;

    // Set target to lower control
    control.set_target(SpeedTarget {
        speed_step: SpeedStep::Num(5),
        direction: Direction::Forward,
    });

    let (current, delay) = control.step();
    assert_eq!(current.speed_step.idx(), 9);
    assert_eq!(delay, Delay::Millis(7 * 10)); // decel_rate * loop_delay
}

#[test]
fn test_deceleration_steps_gradually() {
    let mut control = Helper::new(default_config());

    // Start at control 5
    control.current = SpeedTarget {
        speed_step: SpeedStep::Num(5),
        direction: Direction::Forward,
    };
    control.target = control.current;

    // Decelerate to stop
    control.set_target(SpeedTarget {
        speed_step: SpeedStep::Stop,
        direction: Direction::Forward,
    });

    let mut speeds = Vec::new();
    loop {
        let (current, delay) = control.step();
        speeds.push(current.speed_step.idx());
        if delay == Delay::Never {
            break;
        }
    }

    assert_eq!(speeds, vec![4, 3, 2, 1, 0]);
}

#[test]
fn test_deceleration_without_rate_jumps_immediately() {
    let mut control = Helper::new(config_no_ramp());

    control.current = SpeedTarget {
        speed_step: SpeedStep::Num(50),
        direction: Direction::Forward,
    };
    control.target = control.current;

    control.set_target(SpeedTarget {
        speed_step: SpeedStep::Stop,
        direction: Direction::Forward,
    });

    let (current, _) = control.step();
    assert_eq!(current.speed_step.idx(), 0);
}

#[test]
fn test_emergency_stop_immediate() {
    let mut control = Helper::new(default_config());

    control.current = SpeedTarget {
        speed_step: SpeedStep::Num(50),
        direction: Direction::Forward,
    };
    control.target = control.current;

    control.set_target(SpeedTarget {
        speed_step: SpeedStep::EmergencyStop,
        direction: Direction::Forward,
    });

    let (current, _) = control.step();
    assert_eq!(current.speed_step, SpeedStep::EmergencyStop);
}

#[test]
fn test_direction_change_decelerates_to_stop_first() {
    let mut control = Helper::new(default_config());

    // Start moving forward at control 3
    control.current = SpeedTarget {
        speed_step: SpeedStep::Num(3),
        direction: Direction::Forward,
    };
    control.target = control.current;

    // Request reverse direction
    control.set_target(SpeedTarget {
        speed_step: SpeedStep::Num(3),
        direction: Direction::Reverse,
    });

    // Should decelerate
    let (current, _) = control.step();
    assert_eq!(current.speed_step.idx(), 2);
    assert_eq!(current.direction, Direction::Forward);

    let (current, _) = control.step();
    assert_eq!(current.speed_step.idx(), 1);
    assert_eq!(current.direction, Direction::Forward);

    // Should reach stop and switch direction
    let (current, _) = control.step();
    assert_eq!(current.speed_step.idx(), SpeedStep::Stop.idx());
    assert_eq!(current.direction, Direction::Forward);

    let (current, _) = control.step();
    assert_eq!(current.speed_step.idx(), 1);
    assert_eq!(current.direction, Direction::Reverse);
}

#[test]
fn test_direction_change_without_decel_rate_switches_immediately() {
    let mut control = Helper::new(config_no_ramp());

    control.current = SpeedTarget {
        speed_step: SpeedStep::Num(50),
        direction: Direction::Forward,
    };
    control.target = control.current;

    control.set_target(SpeedTarget {
        speed_step: SpeedStep::Num(30),
        direction: Direction::Reverse,
    });

    let (current, _) = control.step();
    assert_eq!(current.speed_step, SpeedStep::Num(30));
    assert_eq!(current.direction, Direction::Reverse);
}

#[test]
fn test_direction_change_from_stop() {
    let mut control = Helper::new(default_config());

    control.current = SpeedTarget {
        speed_step: SpeedStep::Stop,
        direction: Direction::Forward,
    };
    control.target = control.current;

    control.set_target(SpeedTarget {
        speed_step: SpeedStep::Num(5),
        direction: Direction::Reverse,
    });

    let mut speeds = Vec::new();
    loop {
        let (current, delay) = control.step();
        speeds.push(current.speed_step.idx());
        if delay == Delay::Never {
            break;
        }
    }

    assert_eq!(speeds, vec![1, 2, 3, 4, 5]);
    assert_eq!(control.current.direction, Direction::Reverse);
}

#[test]
fn test_full_acceleration_cycle() {
    let mut control = Helper::new(Config {
        accel_rate: 5,
        decel_rate: 5,
        loop_delay: 10,
    });

    control.set_target(SpeedTarget {
        speed_step: SpeedStep::Num(3),
        direction: Direction::Forward,
    });

    let mut total_time = 0;
    while let (_, Delay::Millis(delay)) = control.step() {
        total_time += delay;
    }

    // Should take 3 steps, but the final step has an infinite delay so isnt counted.
    assert_eq!(total_time, 100);
}

#[test]
fn test_full_deceleration_cycle() {
    let mut control = Helper::new(Config {
        accel_rate: 5,
        decel_rate: 5,
        loop_delay: 10,
    });

    control.current = SpeedTarget {
        speed_step: SpeedStep::Num(3),
        direction: Direction::Forward,
    };
    control.target = control.current;

    control.set_target(SpeedTarget {
        speed_step: SpeedStep::Stop,
        direction: Direction::Forward,
    });

    let mut total_time = 0;
    while let (_, Delay::Millis(delay)) = control.step() {
        total_time += delay;
    }

    // Should take 3 steps, but the final step has an infinite delay so isnt counted.
    assert_eq!(total_time, 100);
}

#[test]
fn test_direction_change_while_stopped() {
    let mut control = Helper::new(default_config());
    control.set_target(SpeedTarget {
        speed_step: SpeedStep::Stop,
        direction: Direction::Reverse,
    });
    let (current, delay) = control.step();
    assert_eq!(current.speed_step, SpeedStep::Stop);
    assert_eq!(current.direction, Direction::Reverse);
    assert_eq!(delay, Delay::Never);
    assert_eq!(control.current.direction, Direction::Reverse);
}

#[test]
fn test_emergency_stop_in_the_other_direction() {
    let mut control = Helper::new(default_config());
    control.current = SpeedTarget {
        speed_step: SpeedStep::Num(50),
        direction: Direction::Forward,
    };
    control.set_target(SpeedTarget {
        speed_step: SpeedStep::EmergencyStop,
        direction: Direction::Reverse,
    });
    let (current, delay) = control.step();
    assert_eq!(current.speed_step, SpeedStep::EmergencyStop);
    assert_eq!(current.direction, Direction::Forward);
    assert_eq!(delay, Delay::Millis(70));
    let (current, delay) = control.step();
    assert_eq!(current.direction, Direction::Reverse);
    assert_eq!(delay, Delay::Never);
}

#[test]
fn test_target_is_reached_from_everywhere() {
    for accel_rate in [0, 3] {
        for decel_rate in [0, 3] {
            for start in [0, 1, 7, 126] {
                for goal in [0, 1, 6, 126] {
                    for direction in [Direction::Forward, Direction::Reverse] {
                        let mut control =
                            Helper::new(Config { accel_rate, decel_rate, loop_delay: 7 });
                        control.current = SpeedTarget {
                            speed_step: SpeedStep::Num(start),
                            direction: Direction::Forward,
                        };
                        let target = SpeedTarget { speed_step: SpeedStep::Num(goal), direction };
                        control.set_target(target);
                        let mut steps = 0;
                        let mut last = control.step();
                        while last.1 != Delay::Never {
                            last = control.step();
                            steps += 1;
                            assert!(steps < 260);
                        }
                        assert_eq!(last.0, target);
                    }
                }
            }
        }
    }
}

#[test]
fn test_reset_helper() {
    let mut control = Helper::new(default_config());
    control.set_target(SpeedTarget {
        speed_step: SpeedStep::Num(5),
        direction: Direction::Reverse,
    });
    control.step();
    control.reset();
    assert_eq!(control.current, SpeedTarget::default());
    assert_eq!(control.target, SpeedTarget::default());
    assert_eq!(control.config, default_config());
}

#[test]
fn test_accel_config_from_store() {
    let mut values = default_values();
    values[2] = 4;
    values[3] = 5;
    let store = CvImage::new(values).unwrap();
    assert_eq!(
        Config::read(&store),
        Ok(Config { accel_rate: 4, decel_rate: 5, loop_delay: 7 })
    );
}

#[test]
fn test_velocity_setpoints() {
    let a = VelocitySetpoint::new(SpeedStep::Stop, Direction::Forward);
    let b = VelocitySetpoint::new(SpeedStep::EmergencyStop, Direction::Forward);
    let c = VelocitySetpoint::new(SpeedStep::Stop, Direction::Reverse);
    assert!(a.equivalent(&b));
    assert!(!a.equivalent(&c));
    assert_eq!(a, VelocitySetpoint::default());
}
