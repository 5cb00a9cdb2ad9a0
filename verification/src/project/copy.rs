//! Faithful copies of the project model's values.
use vstd::prelude::*;
use crate::copying::ExactCopy;
use super::types::{
    BindOptions, BuildConfig, Command, DependsOn, DependsOnCondition, DeployConfig, DeployPlacement,
    DeployRestartPolicy, DeployUpdateConfig, DriverConfig, EnvVars, ExtendsConfig, HealthCheck, Labels,
    LoggingConfig, PortMapping, ResourceSpec, ResourcesConfig, RestartPolicy, ScalarValue, Service,
    ServiceCondition, ServiceConfigRef, ServiceNetworkConfig, ServiceNetworks, ServiceSecretRef,
    StringOrList, StringOrU16, Sysctls, TmpfsOptions, UlimitConfig, VolumeMount, VolumeOptions,
    VolumeType,
};

verus! {

impl ExactCopy for UlimitConfig {
    open spec fn same(&self, other: &Self) -> bool {
        *self == *other
    }

    fn exact_copy(&self) -> (r: Self) {
        *self
    }
}

impl ExactCopy for ServiceCondition {
    open spec fn same(&self, other: &Self) -> bool {
        *self == *other
    }

    fn exact_copy(&self) -> (r: Self) {
        *self
    }
}

impl ExactCopy for VolumeType {
    open spec fn same(&self, other: &Self) -> bool {
        *self == *other
    }

    fn exact_copy(&self) -> (r: Self) {
        *self
    }
}

impl ExactCopy for DependsOnCondition {
    open spec fn same(&self, other: &Self) -> bool {
        *self == *other
    }

    fn exact_copy(&self) -> (r: Self) {
        *self
    }
}

impl ExactCopy for RestartPolicy {
    open spec fn same(&self, other: &Self) -> bool {
        *self == *other
    }

    fn exact_copy(&self) -> (r: Self) {
        *self
    }
}

impl ExactCopy for LoggingConfig {
    open spec fn same(&self, other: &Self) -> bool {
        &&& self.driver.same(&other.driver)
        &&& self.options.same(&other.options)
    }

    fn exact_copy(&self) -> (r: Self) {
        LoggingConfig {
            driver: self.driver.exact_copy(),
            options: self.options.exact_copy(),
        }
    }
}

impl ExactCopy for DeployRestartPolicy {
    open spec fn same(&self, other: &Self) -> bool {
        &&& self.condition.same(&other.condition)
        &&& self.delay.same(&other.delay)
        &&& self.max_attempts.same(&other.max_attempts)
        &&& self.window.same(&other.window)
    }

    fn exact_copy(&self) -> (r: Self) {
        DeployRestartPolicy {
            condition: self.condition.exact_copy(),
            delay: self.delay.exact_copy(),
            max_attempts: self.max_attempts.exact_copy(),
            window: self.window.exact_copy(),
        }
    }
}

impl ExactCopy for BindOptions {
    open spec fn same(&self, other: &Self) -> bool {
        &&& self.propagation.same(&other.propagation)
        &&& self.create_host_path.same(&other.create_host_path)
        &&& self.selinux.same(&other.selinux)
    }

    fn exact_copy(&self) -> (r: Self) {
        BindOptions {
            propagation: self.propagation.exact_copy(),
            create_host_path: self.create_host_path.exact_copy(),
            selinux: self.selinux.exact_copy(),
        }
    }
}

impl ExactCopy for VolumeOptions {
    open spec fn same(&self, other: &Self) -> bool {
        &&& self.nocopy.same(&other.nocopy)
        &&& self.labels.same(&other.labels)
        &&& self.driver_config.same(&other.driver_config)
        &&& self.subpath.same(&other.subpath)
    }

    fn exact_copy(&self) -> (r: Self) {
        VolumeOptions {
            nocopy: self.nocopy.exact_copy(),
            labels: self.labels.exact_copy(),
            driver_config: self.driver_config.exact_copy(),
            subpath: self.subpath.exact_copy(),
        }
    }
}

impl ExactCopy for DriverConfig {
    open spec fn same(&self, other: &Self) -> bool {
        &&& self.name.same(&other.name)
        &&& self.options.same(&other.options)
    }

    fn exact_copy(&self) -> (r: Self) {
        DriverConfig {
            name: self.name.exact_copy(),
            options: self.options.exact_copy(),
        }
    }
}

impl ExactCopy for TmpfsOptions {
    open spec fn same(&self, other: &Self) -> bool {
        &&& self.size.same(&other.size)
        &&& self.mode.same(&other.mode)
    }

    fn exact_copy(&self) -> (r: Self) {
        TmpfsOptions {
            size: self.size.exact_copy(),
            mode: self.mode.exact_copy(),
        }
    }
}

impl ExactCopy for ServiceNetworkConfig {
    open spec fn same(&self, other: &Self) -> bool {
        &&& self.aliases.same(&other.aliases)
        &&& self.ipv4_address.same(&other.ipv4_address)
        &&& self.ipv6_address.same(&other.ipv6_address)
        &&& self.link_local_ips.same(&other.link_local_ips)
        &&& self.priority.same(&other.priority)
        &&& self.mac_address.same(&other.mac_address)
        &&& self.driver_opts.same(&other.driver_opts)
        &&& self.gw_priority.same(&other.gw_priority)
    }

    fn exact_copy(&self) -> (r: Self) {
        ServiceNetworkConfig {
            aliases: self.aliases.exact_copy(),
            ipv4_address: self.ipv4_address.exact_copy(),
            ipv6_address: self.ipv6_address.exact_copy(),
            link_local_ips: self.link_local_ips.exact_copy(),
            priority: self.priority.exact_copy(),
            mac_address: self.mac_address.exact_copy(),
            driver_opts: self.driver_opts.exact_copy(),
            gw_priority: self.gw_priority.exact_copy(),
        }
    }
}

impl ExactCopy for HealthCheck {
    open spec fn same(&self, other: &Self) -> bool {
        &&& self.test.same(&other.test)
        &&& self.interval.same(&other.interval)
        &&& self.timeout.same(&other.timeout)
        &&& self.retries.same(&other.retries)
        &&& self.start_period.same(&other.start_period)
        &&& self.start_interval.same(&other.start_interval)
        &&& self.disable.same(&other.disable)
    }

    fn exact_copy(&self) -> (r: Self) {
        HealthCheck {
            test: self.test.exact_copy(),
            interval: self.interval.exact_copy(),
            timeout: self.timeout.exact_copy(),
            retries: self.retries.exact_copy(),
            start_period: self.start_period.exact_copy(),
            start_interval: self.start_interval.exact_copy(),
            disable: self.disable.exact_copy(),
        }
    }
}

impl ExactCopy for DeployConfig {
    open spec fn same(&self, other: &Self) -> bool {
        &&& self.replicas.same(&other.replicas)
        &&& self.resources.same(&other.resources)
        &&& self.restart_policy.same(&other.restart_policy)
        &&& self.update_config.same(&other.update_config)
        &&& self.rollback_config.same(&other.rollback_config)
        &&& self.endpoint_mode.same(&other.endpoint_mode)
        &&& self.mode.same(&other.mode)
        &&& self.labels.same(&other.labels)
        &&& self.placement.same(&other.placement)
    }

    fn exact_copy(&self) -> (r: Self) {
        DeployConfig {
            replicas: self.replicas.exact_copy(),
            resources: self.resources.exact_copy(),
            restart_policy: self.restart_policy.exact_copy(),
            update_config: self.update_config.exact_copy(),
            rollback_config: self.rollback_config.exact_copy(),
            endpoint_mode: self.endpoint_mode.exact_copy(),
            mode: self.mode.exact_copy(),
            labels: self.labels.exact_copy(),
            placement: self.placement.exact_copy(),
        }
    }
}

impl ExactCopy for DeployUpdateConfig {
    open spec fn same(&self, other: &Self) -> bool {
        &&& self.parallelism.same(&other.parallelism)
        &&& self.delay.same(&other.delay)
        &&& self.failure_action.same(&other.failure_action)
        &&& self.monitor.same(&other.monitor)
        &&& self.max_failure_ratio.same(&other.max_failure_ratio)
        &&& self.order.same(&other.order)
    }

    fn exact_copy(&self) -> (r: Self) {
        DeployUpdateConfig {
            parallelism: self.parallelism.exact_copy(),
            delay: self.delay.exact_copy(),
            failure_action: self.failure_action.exact_copy(),
            monitor: self.monitor.exact_copy(),
            max_failure_ratio: self.max_failure_ratio.exact_copy(),
            order: self.order.exact_copy(),
        }
    }
}

impl ExactCopy for DeployPlacement {
    open spec fn same(&self, other: &Self) -> bool {
        &&& self.constraints.same(&other.constraints)
        &&& self.preferences.same(&other.preferences)
        &&& self.max_replicas_per_node.same(&other.max_replicas_per_node)
    }

    fn exact_copy(&self) -> (r: Self) {
        DeployPlacement {
            constraints: self.constraints.exact_copy(),
            preferences: self.preferences.exact_copy(),
            max_replicas_per_node: self.max_replicas_per_node.exact_copy(),
        }
    }
}

impl ExactCopy for ResourcesConfig {
    open spec fn same(&self, other: &Self) -> bool {
        &&& self.limits.same(&other.limits)
        &&& self.reservations.same(&other.reservations)
    }

    fn exact_copy(&self) -> (r: Self) {
        ResourcesConfig {
            limits: self.limits.exact_copy(),
            reservations: self.reservations.exact_copy(),
        }
    }
}

impl ExactCopy for ResourceSpec {
    open spec fn same(&self, other: &Self) -> bool {
        &&& self.cpus.same(&other.cpus)
        &&& self.memory.same(&other.memory)
        &&& self.pids.same(&other.pids)
    }

    fn exact_copy(&self) -> (r: Self) {
        ResourceSpec {
            cpus: self.cpus.exact_copy(),
            memory: self.memory.exact_copy(),
            pids: self.pids.exact_copy(),
        }
    }
}

impl ExactCopy for Service {
    open spec fn same(&self, other: &Self) -> bool {
        &&& self.image.same(&other.image)
        &&& self.build.same(&other.build)
        &&& self.extends.same(&other.extends)
        &&& self.command.same(&other.command)
        &&& self.entrypoint.same(&other.entrypoint)
        &&& self.ports.same(&other.ports)
        &&& self.expose.same(&other.expose)
        &&& self.environment.same(&other.environment)
        &&& self.env_file.same(&other.env_file)
        &&& self.volumes.same(&other.volumes)
        &&& self.tmpfs.same(&other.tmpfs)
        &&& self.volumes_from.same(&other.volumes_from)
        &&& self.configs.same(&other.configs)
        &&& self.secrets.same(&other.secrets)
        &&& self.networks.same(&other.networks)
        &&& self.hostname.same(&other.hostname)
        &&& self.domainname.same(&other.domainname)
        &&& self.mac_address.same(&other.mac_address)
        &&& self.links.same(&other.links)
        &&& self.extra_hosts.same(&other.extra_hosts)
        &&& self.dns.same(&other.dns)
        &&& self.dns_search.same(&other.dns_search)
        &&& self.network_mode.same(&other.network_mode)
        &&& self.depends_on.same(&other.depends_on)
        &&& self.healthcheck.same(&other.healthcheck)
        &&& self.restart.same(&other.restart)
        &&& self.stop_signal.same(&other.stop_signal)
        &&& self.stop_grace_period.same(&other.stop_grace_period)
        &&& self.profiles.same(&other.profiles)
        &&& self.labels.same(&other.labels)
        &&& self.annotations.same(&other.annotations)
        &&& self.container_name.same(&other.container_name)
        &&& self.user.same(&other.user)
        &&& self.working_dir.same(&other.working_dir)
        &&& self.group_add.same(&other.group_add)
        &&& self.platform.same(&other.platform)
        &&& self.cap_add.same(&other.cap_add)
        &&& self.cap_drop.same(&other.cap_drop)
        &&& self.security_opt.same(&other.security_opt)
        &&& self.read_only.same(&other.read_only)
        &&& self.privileged.same(&other.privileged)
        &&& self.init.same(&other.init)
        &&& self.tty.same(&other.tty)
        &&& self.stdin_open.same(&other.stdin_open)
        &&& self.runtime.same(&other.runtime)
        &&& self.shm_size.same(&other.shm_size)
        &&& self.userns_mode.same(&other.userns_mode)
        &&& self.pid.same(&other.pid)
        &&& self.ipc.same(&other.ipc)
        &&& self.cgroup_parent.same(&other.cgroup_parent)
        &&& self.cgroup.same(&other.cgroup)
        &&& self.devices.same(&other.devices)
        &&& self.storage_opt.same(&other.storage_opt)
        &&& self.scale.same(&other.scale)
        &&& self.cpu_shares.same(&other.cpu_shares)
        &&& self.cpu_quota.same(&other.cpu_quota)
        &&& self.cpu_period.same(&other.cpu_period)
        &&& self.cpuset.same(&other.cpuset)
        &&& self.mem_limit.same(&other.mem_limit)
        &&& self.memswap_limit.same(&other.memswap_limit)
        &&& self.mem_reservation.same(&other.mem_reservation)
        &&& self.oom_kill_disable.same(&other.oom_kill_disable)
        &&& self.oom_score_adj.same(&other.oom_score_adj)
        &&& self.logging.same(&other.logging)
        &&& self.sysctls.same(&other.sysctls)
        &&& self.ulimits.same(&other.ulimits)
        &&& self.deploy.same(&other.deploy)
    }

    fn exact_copy(&self) -> (r: Self) {
        Service {
            image: self.image.exact_copy(),
            build: self.build.exact_copy(),
            extends: self.extends.exact_copy(),
            command: self.command.exact_copy(),
            entrypoint: self.entrypoint.exact_copy(),
            ports: self.ports.exact_copy(),
            expose: self.expose.exact_copy(),
            environment: self.environment.exact_copy(),
            env_file: self.env_file.exact_copy(),
            volumes: self.volumes.exact_copy(),
            tmpfs: self.tmpfs.exact_copy(),
            volumes_from: self.volumes_from.exact_copy(),
            configs: self.configs.exact_copy(),
            secrets: self.secrets.exact_copy(),
            networks: self.networks.exact_copy(),
            hostname: self.hostname.exact_copy(),
            domainname: self.domainname.exact_copy(),
            mac_address: self.mac_address.exact_copy(),
            links: self.links.exact_copy(),
            extra_hosts: self.extra_hosts.exact_copy(),
            dns: self.dns.exact_copy(),
            dns_search: self.dns_search.exact_copy(),
            network_mode: self.network_mode.exact_copy(),
            depends_on: self.depends_on.exact_copy(),
            healthcheck: self.healthcheck.exact_copy(),
            restart: self.restart.exact_copy(),
            stop_signal: self.stop_signal.exact_copy(),
            stop_grace_period: self.stop_grace_period.exact_copy(),
            profiles: self.profiles.exact_copy(),
            labels: self.labels.exact_copy(),
            annotations: self.annotations.exact_copy(),
            container_name: self.container_name.exact_copy(),
            user: self.user.exact_copy(),
            working_dir: self.working_dir.exact_copy(),
            group_add: self.group_add.exact_copy(),
            platform: self.platform.exact_copy(),
            cap_add: self.cap_add.exact_copy(),
            cap_drop: self.cap_drop.exact_copy(),
            security_opt: self.security_opt.exact_copy(),
            read_only: self.read_only.exact_copy(),
            privileged: self.privileged.exact_copy(),
            init: self.init.exact_copy(),
            tty: self.tty.exact_copy(),
            stdin_open: self.stdin_open.exact_copy(),
            runtime: self.runtime.exact_copy(),
            shm_size: self.shm_size.exact_copy(),
            userns_mode: self.userns_mode.exact_copy(),
            pid: self.pid.exact_copy(),
            ipc: self.ipc.exact_copy(),
            cgroup_parent: self.cgroup_parent.exact_copy(),
            cgroup: self.cgroup.exact_copy(),
            devices: self.devices.exact_copy(),
            storage_opt: self.storage_opt.exact_copy(),
            scale: self.scale.exact_copy(),
            cpu_shares: self.cpu_shares.exact_copy(),
            cpu_quota: self.cpu_quota.exact_copy(),
            cpu_period: self.cpu_period.exact_copy(),
            cpuset: self.cpuset.exact_copy(),
            mem_limit: self.mem_limit.exact_copy(),
            memswap_limit: self.memswap_limit.exact_copy(),
            mem_reservation: self.mem_reservation.exact_copy(),
            oom_kill_disable: self.oom_kill_disable.exact_copy(),
            oom_score_adj: self.oom_score_adj.exact_copy(),
            logging: self.logging.exact_copy(),
            sysctls: self.sysctls.exact_copy(),
            ulimits: self.ulimits.exact_copy(),
            deploy: self.deploy.exact_copy(),
        }
    }
}

impl ExactCopy for Command {
    open spec fn same(&self, other: &Self) -> bool {
        match (*self, *other) {
            (Command::Shell(a), Command::Shell(b)) => a.same(&b),
            (Command::Exec(a), Command::Exec(b)) => a.same(&b),
            _ => false,
        }
    }

    fn exact_copy(&self) -> (r: Self) {
        match self {
            Command::Shell(a) => Command::Shell(a.exact_copy()),
            Command::Exec(a) => Command::Exec(a.exact_copy()),
        }
    }
}

impl ExactCopy for ScalarValue {
    open spec fn same(&self, other: &Self) -> bool {
        match (*self, *other) {
            (ScalarValue::String(a), ScalarValue::String(b)) => a.same(&b),
            (ScalarValue::Number(a), ScalarValue::Number(b)) => a.same(&b),
            (ScalarValue::Bool(a), ScalarValue::Bool(b)) => a.same(&b),
            (ScalarValue::Null, ScalarValue::Null) => true,
            (ScalarValue::Other, ScalarValue::Other) => true,
            _ => false,
        }
    }

    fn exact_copy(&self) -> (r: Self) {
        match self {
            ScalarValue::String(a) => ScalarValue::String(a.exact_copy()),
            ScalarValue::Number(a) => ScalarValue::Number(a.exact_copy()),
            ScalarValue::Bool(a) => ScalarValue::Bool(a.exact_copy()),
            ScalarValue::Null => ScalarValue::Null,
            ScalarValue::Other => ScalarValue::Other,
        }
    }
}

impl ExactCopy for EnvVars {
    open spec fn same(&self, other: &Self) -> bool {
        match (*self, *other) {
            (EnvVars::Empty, EnvVars::Empty) => true,
            (EnvVars::List(a), EnvVars::List(b)) => a.same(&b),
            (EnvVars::Mapping(a), EnvVars::Mapping(b)) => a.same(&b),
            _ => false,
        }
    }

    fn exact_copy(&self) -> (r: Self) {
        match self {
            EnvVars::Empty => EnvVars::Empty,
            EnvVars::List(a) => EnvVars::List(a.exact_copy()),
            EnvVars::Mapping(a) => EnvVars::Mapping(a.exact_copy()),
        }
    }
}

impl ExactCopy for StringOrList {
    open spec fn same(&self, other: &Self) -> bool {
        match (*self, *other) {
            (StringOrList::Empty, StringOrList::Empty) => true,
            (StringOrList::Single(a), StringOrList::Single(b)) => a.same(&b),
            (StringOrList::List(a), StringOrList::List(b)) => a.same(&b),
            _ => false,
        }
    }

    fn exact_copy(&self) -> (r: Self) {
        match self {
            StringOrList::Empty => StringOrList::Empty,
            StringOrList::Single(a) => StringOrList::Single(a.exact_copy()),
            StringOrList::List(a) => StringOrList::List(a.exact_copy()),
        }
    }
}

impl ExactCopy for StringOrU16 {
    open spec fn same(&self, other: &Self) -> bool {
        match (*self, *other) {
            (StringOrU16::String(a), StringOrU16::String(b)) => a.same(&b),
            (StringOrU16::Number(a), StringOrU16::Number(b)) => a.same(&b),
            _ => false,
        }
    }

    fn exact_copy(&self) -> (r: Self) {
        match self {
            StringOrU16::String(a) => StringOrU16::String(a.exact_copy()),
            StringOrU16::Number(a) => StringOrU16::Number(a.exact_copy()),
        }
    }
}

impl ExactCopy for Labels {
    open spec fn same(&self, other: &Self) -> bool {
        match (*self, *other) {
            (Labels::Empty, Labels::Empty) => true,
            (Labels::List(a), Labels::List(b)) => a.same(&b),
            (Labels::Mapping(a), Labels::Mapping(b)) => a.same(&b),
            _ => false,
        }
    }

    fn exact_copy(&self) -> (r: Self) {
        match self {
            Labels::Empty => Labels::Empty,
            Labels::List(a) => Labels::List(a.exact_copy()),
            Labels::Mapping(a) => Labels::Mapping(a.exact_copy()),
        }
    }
}

impl ExactCopy for Sysctls {
    open spec fn same(&self, other: &Self) -> bool {
        match (*self, *other) {
            (Sysctls::Empty, Sysctls::Empty) => true,
            (Sysctls::List(a), Sysctls::List(b)) => a.same(&b),
            (Sysctls::Mapping(a), Sysctls::Mapping(b)) => a.same(&b),
            _ => false,
        }
    }

    fn exact_copy(&self) -> (r: Self) {
        match self {
            Sysctls::Empty => Sysctls::Empty,
            Sysctls::List(a) => Sysctls::List(a.exact_copy()),
            Sysctls::Mapping(a) => Sysctls::Mapping(a.exact_copy()),
        }
    }
}

impl ExactCopy for ExtendsConfig {
    open spec fn same(&self, other: &Self) -> bool {
        match (*self, *other) {
            (ExtendsConfig::Service(a), ExtendsConfig::Service(b)) => a.same(&b),
            (ExtendsConfig::Long { service: a_service, file: a_file }, ExtendsConfig::Long { service: b_service, file: b_file }) => a_service.same(&b_service) && a_file.same(&b_file),
            _ => false,
        }
    }

    fn exact_copy(&self) -> (r: Self) {
        match self {
            ExtendsConfig::Service(a) => ExtendsConfig::Service(a.exact_copy()),
            ExtendsConfig::Long { service, file } => ExtendsConfig::Long { service: service.exact_copy(), file: file.exact_copy() },
        }
    }
}

impl ExactCopy for BuildConfig {
    open spec fn same(&self, other: &Self) -> bool {
        match (*self, *other) {
            (BuildConfig::Context(a), BuildConfig::Context(b)) => a.same(&b),
            (BuildConfig::Config { context: a_context, dockerfile: a_dockerfile, args: a_args, target: a_target, cache_from: a_cache_from, labels: a_labels, shm_size: a_shm_size, network: a_network, platforms: a_platforms, additional_contexts: a_additional_contexts }, BuildConfig::Config { context: b_context, dockerfile: b_dockerfile, args: b_args, target: b_target, cache_from: b_cache_from, labels: b_labels, shm_size: b_shm_size, network: b_network, platforms: b_platforms, additional_contexts: b_additional_contexts }) => a_context.same(&b_context) && a_dockerfile.same(&b_dockerfile) && a_args.same(&b_args) && a_target.same(&b_target) && a_cache_from.same(&b_cache_from) && a_labels.same(&b_labels) && a_shm_size.same(&b_shm_size) && a_network.same(&b_network) && a_platforms.same(&b_platforms) && a_additional_contexts.same(&b_additional_contexts),
            _ => false,
        }
    }

    fn exact_copy(&self) -> (r: Self) {
        match self {
            BuildConfig::Context(a) => BuildConfig::Context(a.exact_copy()),
            BuildConfig::Config { context, dockerfile, args, target, cache_from, labels, shm_size, network, platforms, additional_contexts } => BuildConfig::Config { context: context.exact_copy(), dockerfile: dockerfile.exact_copy(), args: args.exact_copy(), target: target.exact_copy(), cache_from: cache_from.exact_copy(), labels: labels.exact_copy(), shm_size: shm_size.exact_copy(), network: network.exact_copy(), platforms: platforms.exact_copy(), additional_contexts: additional_contexts.exact_copy() },
        }
    }
}

impl ExactCopy for PortMapping {
    open spec fn same(&self, other: &Self) -> bool {
        match (*self, *other) {
            (PortMapping::Short(a), PortMapping::Short(b)) => a.same(&b),
            (PortMapping::Long { target: a_target, published: a_published, protocol: a_protocol, host_ip: a_host_ip, mode: a_mode, app_protocol: a_app_protocol, name: a_name }, PortMapping::Long { target: b_target, published: b_published, protocol: b_protocol, host_ip: b_host_ip, mode: b_mode, app_protocol: b_app_protocol, name: b_name }) => a_target.same(&b_target) && a_published.same(&b_published) && a_protocol.same(&b_protocol) && a_host_ip.same(&b_host_ip) && a_mode.same(&b_mode) && a_app_protocol.same(&b_app_protocol) && a_name.same(&b_name),
            _ => false,
        }
    }

    fn exact_copy(&self) -> (r: Self) {
        match self {
            PortMapping::Short(a) => PortMapping::Short(a.exact_copy()),
            PortMapping::Long { target, published, protocol, host_ip, mode, app_protocol, name } => PortMapping::Long { target: target.exact_copy(), published: published.exact_copy(), protocol: protocol.exact_copy(), host_ip: host_ip.exact_copy(), mode: mode.exact_copy(), app_protocol: app_protocol.exact_copy(), name: name.exact_copy() },
        }
    }
}

impl ExactCopy for VolumeMount {
    open spec fn same(&self, other: &Self) -> bool {
        match (*self, *other) {
            (VolumeMount::Short(a), VolumeMount::Short(b)) => a.same(&b),
            (VolumeMount::Long { volume_type: a_volume_type, source: a_source, target: a_target, read_only: a_read_only, bind: a_bind, volume: a_volume, tmpfs: a_tmpfs, consistency: a_consistency }, VolumeMount::Long { volume_type: b_volume_type, source: b_source, target: b_target, read_only: b_read_only, bind: b_bind, volume: b_volume, tmpfs: b_tmpfs, consistency: b_consistency }) => a_volume_type.same(&b_volume_type) && a_source.same(&b_source) && a_target.same(&b_target) && a_read_only.same(&b_read_only) && a_bind.same(&b_bind) && a_volume.same(&b_volume) && a_tmpfs.same(&b_tmpfs) && a_consistency.same(&b_consistency),
            _ => false,
        }
    }

    fn exact_copy(&self) -> (r: Self) {
        match self {
            VolumeMount::Short(a) => VolumeMount::Short(a.exact_copy()),
            VolumeMount::Long { volume_type, source, target, read_only, bind, volume, tmpfs, consistency } => VolumeMount::Long { volume_type: volume_type.exact_copy(), source: source.exact_copy(), target: target.exact_copy(), read_only: read_only.exact_copy(), bind: bind.exact_copy(), volume: volume.exact_copy(), tmpfs: tmpfs.exact_copy(), consistency: consistency.exact_copy() },
        }
    }
}

impl ExactCopy for ServiceConfigRef {
    open spec fn same(&self, other: &Self) -> bool {
        match (*self, *other) {
            (ServiceConfigRef::Short(a), ServiceConfigRef::Short(b)) => a.same(&b),
            (ServiceConfigRef::Long { source: a_source, target: a_target, uid: a_uid, gid: a_gid, mode: a_mode }, ServiceConfigRef::Long { source: b_source, target: b_target, uid: b_uid, gid: b_gid, mode: b_mode }) => a_source.same(&b_source) && a_target.same(&b_target) && a_uid.same(&b_uid) && a_gid.same(&b_gid) && a_mode.same(&b_mode),
            _ => false,
        }
    }

    fn exact_copy(&self) -> (r: Self) {
        match self {
            ServiceConfigRef::Short(a) => ServiceConfigRef::Short(a.exact_copy()),
            ServiceConfigRef::Long { source, target, uid, gid, mode } => ServiceConfigRef::Long { source: source.exact_copy(), target: target.exact_copy(), uid: uid.exact_copy(), gid: gid.exact_copy(), mode: mode.exact_copy() },
        }
    }
}

impl ExactCopy for ServiceSecretRef {
    open spec fn same(&self, other: &Self) -> bool {
        match (*self, *other) {
            (ServiceSecretRef::Short(a), ServiceSecretRef::Short(b)) => a.same(&b),
            (ServiceSecretRef::Long { source: a_source, target: a_target, uid: a_uid, gid: a_gid, mode: a_mode }, ServiceSecretRef::Long { source: b_source, target: b_target, uid: b_uid, gid: b_gid, mode: b_mode }) => a_source.same(&b_source) && a_target.same(&b_target) && a_uid.same(&b_uid) && a_gid.same(&b_gid) && a_mode.same(&b_mode),
            _ => false,
        }
    }

    fn exact_copy(&self) -> (r: Self) {
        match self {
            ServiceSecretRef::Short(a) => ServiceSecretRef::Short(a.exact_copy()),
            ServiceSecretRef::Long { source, target, uid, gid, mode } => ServiceSecretRef::Long { source: source.exact_copy(), target: target.exact_copy(), uid: uid.exact_copy(), gid: gid.exact_copy(), mode: mode.exact_copy() },
        }
    }
}

impl ExactCopy for ServiceNetworks {
    open spec fn same(&self, other: &Self) -> bool {
        match (*self, *other) {
            (ServiceNetworks::Empty, ServiceNetworks::Empty) => true,
            (ServiceNetworks::List(a), ServiceNetworks::List(b)) => a.same(&b),
            (ServiceNetworks::Mapping(a), ServiceNetworks::Mapping(b)) => a.same(&b),
            _ => false,
        }
    }

    fn exact_copy(&self) -> (r: Self) {
        match self {
            ServiceNetworks::Empty => ServiceNetworks::Empty,
            ServiceNetworks::List(a) => ServiceNetworks::List(a.exact_copy()),
            ServiceNetworks::Mapping(a) => ServiceNetworks::Mapping(a.exact_copy()),
        }
    }
}

impl ExactCopy for DependsOn {
    open spec fn same(&self, other: &Self) -> bool {
        match (*self, *other) {
            (DependsOn::Empty, DependsOn::Empty) => true,
            (DependsOn::List(a), DependsOn::List(b)) => a.same(&b),
            (DependsOn::Mapping(a), DependsOn::Mapping(b)) => a.same(&b),
            _ => false,
        }
    }

    fn exact_copy(&self) -> (r: Self) {
        match self {
            DependsOn::Empty => DependsOn::Empty,
            DependsOn::List(a) => DependsOn::List(a.exact_copy()),
            DependsOn::Mapping(a) => DependsOn::Mapping(a.exact_copy()),
        }
    }
}

} // verus!
