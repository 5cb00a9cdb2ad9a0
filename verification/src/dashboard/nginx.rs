//! Reverse-proxy configuration for the dashboard's public domain.
use vstd::prelude::*;

verus! {

pub const COMPOSE_YAML_0: &'static str = "networks:\n  lynx-dashboard-app:\n    external: true\n\nservices:\n  lynx-dashboard-nginx:\n    image: docker.io/nginx:1-alpine\n    container_name: lynx-dashboard-nginx\n    restart: unless-stopped\n    ports:\n      - \"80:80\"\n      - \"443:443\"\n    volumes:\n      - /etc/lynx/nginx/nginx.conf:/etc/nginx/conf.d/lynx.conf:ro\n      - /var/lib/lynx/nginx/webroot:/var/www/html:ro\n";
pub const COMPOSE_YAML_1: &'static str = "\n    networks:\n      - lynx-dashboard-app\n";
pub const CONF_TLS_0: &'static str = "server {\n    listen 80;\n    server_name ";
pub const CONF_TLS_1: &'static str = ";\n    location /.well-known/acme-challenge/ {\n        root /var/www/html;\n    }\n    location / {\n        return 301 https://$host$request_uri;\n    }\n}\n\nserver {\n    listen 443 ssl http2;\n    server_name ";
pub const CONF_TLS_2: &'static str = ";\n    ssl_certificate /etc/letsencrypt/live/";
pub const CONF_TLS_3: &'static str = "/fullchain.pem;\n    ssl_certificate_key /etc/letsencrypt/live/";
pub const CONF_TLS_4: &'static str = "/privkey.pem;\n    ssl_session_timeout 1d;\n    ssl_session_cache shared:MozSSL:10m;\n    ssl_protocols TLSv1.3 TLSv1.2;\n    ssl_ciphers ECDHE-ECDSA-AES128-GCM-SHA256:ECDHE-RSA-AES128-GCM-SHA256:ECDHE-ECDSA-AES256-GCM-SHA384:ECDHE-RSA-AES256-GCM-SHA384;\n    ssl_prefer_server_ciphers off;\n";
pub const CONF_TLS_5: &'static str = "\n    location / {\n        proxy_pass http://lynx-dashboard-frontend:3000;\n        proxy_set_header Host $host;\n        proxy_set_header X-Real-IP $remote_addr;\n        proxy_set_header X-Forwarded-For $proxy_add_x_forwarded_for;\n        proxy_set_header X-Forwarded-Proto $scheme;\n    }\n}\n";
pub const CONF_PLAIN_0: &'static str = "server {\n    listen 80;\n    server_name ";
pub const CONF_PLAIN_1: &'static str = ";\n    location /.well-known/acme-challenge/ {\n        root /var/www/html;\n    }\n    location / {\n        proxy_pass http://lynx-dashboard-frontend:3000;\n        proxy_set_header Host $host;\n        proxy_set_header X-Real-IP $remote_addr;\n        proxy_set_header X-Forwarded-For $proxy_add_x_forwarded_for;\n        proxy_set_header X-Forwarded-Proto $scheme;\n    }\n}\n";
pub const HSTS_HEADER: &'static str = "    add_header Strict-Transport-Security \"max-age=63072000; includeSubDomains\" always;\n";
pub const CERT_MOUNT: &'static str = "      - /etc/letsencrypt:/etc/letsencrypt:ro";

/// The HSTS header line, present only with a certificate and HSTS enabled.
pub open spec fn hsts_line(has_cert: bool, hsts: bool) -> Seq<char> {
    if hsts && has_cert { HSTS_HEADER@ } else { Seq::empty() }
}

fn hsts_header(has_cert: bool, hsts: bool) -> (r: &'static str)
    ensures
        r@ == hsts_line(has_cert, hsts),
{
    proof { reveal_strlit(""); }
    if hsts && has_cert { HSTS_HEADER } else { "" }
}

/// The certificate volume line, present only with a certificate.
pub open spec fn cert_mount_line(has_cert: bool) -> Seq<char> {
    if has_cert { CERT_MOUNT@ } else { Seq::empty() }
}

fn cert_mount(has_cert: bool) -> (r: &'static str)
    ensures
        r@ == cert_mount_line(has_cert),
{
    proof { reveal_strlit(""); }
    if has_cert { CERT_MOUNT } else { "" }
}

/// The compose file of the nginx container.
pub open spec fn compose_yaml_text(has_cert: bool) -> Seq<char> {
    Seq::empty() + COMPOSE_YAML_0@ + cert_mount_line(has_cert) + COMPOSE_YAML_1@
}

/// The nginx server configuration: with a certificate, HTTP redirects to
/// HTTPS and HTTPS proxies to the frontend; without one, HTTP proxies to the
/// frontend.  Both serve the ACME challenge directory over HTTP.
pub open spec fn nginx_conf_text(domain: &str, has_cert: bool, hsts: bool) -> Seq<char> {
    if has_cert {
        Seq::empty() + CONF_TLS_0@ + domain@ + CONF_TLS_1@ + domain@ + CONF_TLS_2@ + domain@ + CONF_TLS_3@ + domain@ + CONF_TLS_4@ + hsts_line(has_cert, hsts) + CONF_TLS_5@
    } else {
        Seq::empty() + CONF_PLAIN_0@ + domain@ + CONF_PLAIN_1@
    }
}

pub fn nginx_compose_yaml(_domain: &str, has_cert: bool, _hsts: bool) -> (r: String)
    ensures
        r@ == compose_yaml_text(has_cert),
{
    let mut s = String::new();
    s.append(COMPOSE_YAML_0);
    s.append(cert_mount(has_cert));
    s.append(COMPOSE_YAML_1);
    assert(s@ =~= compose_yaml_text(has_cert));
    s
}

pub fn nginx_conf(domain: &str, has_cert: bool, hsts: bool) -> (r: String)
    ensures
        r@ == nginx_conf_text(domain, has_cert, hsts),
{
    let mut s = String::new();
    if has_cert {
        s.append(CONF_TLS_0);
        s.append(domain);
        s.append(CONF_TLS_1);
        s.append(domain);
        s.append(CONF_TLS_2);
        s.append(domain);
        s.append(CONF_TLS_3);
        s.append(domain);
        s.append(CONF_TLS_4);
        s.append(hsts_header(has_cert, hsts));
        s.append(CONF_TLS_5);
        assert(s@ =~= nginx_conf_text(domain, has_cert, hsts));
    } else {
        s.append(CONF_PLAIN_0);
        s.append(domain);
        s.append(CONF_PLAIN_1);
        assert(s@ =~= nginx_conf_text(domain, has_cert, hsts));
    }
    s
}

} // verus!
